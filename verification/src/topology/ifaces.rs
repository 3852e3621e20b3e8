//! Interfaces of devices: adding, moving, renewing and removing them.
use vstd::prelude::*;

use crate::addr::{Ipv4Addr, Ipv6Addr};
use crate::iface::IfaceConfig;
use crate::profile::Ipv6ProvisioningMode;
use crate::qdisc::LinkCondition;
use crate::text::str_eq;
use crate::topology::pools::{link_local, link_local_from_seed};
use crate::topology::types::{
    change_keeps_wf, iface_from_is_first, iface_views, minus_keeps_wf, plus_keeps_wf, BuildView,
    CoreError, CoreView, DeviceData, DeviceIfaceData, DeviceView, IfaceAttachment, IfaceBuild,
    IfaceView, NetworkCore, NodeId,
};

verus! {

/// Everything needed to wire an interface that was added.
#[derive(Debug)]
pub struct AddIfaceSetup {
    /// The interface.
    pub iface_build: IfaceBuild,
    /// Prefix of the lab's resources.
    pub prefix: String,
    /// Root namespace.
    pub root_ns: String,
    /// MTU of the device.
    pub mtu: Option<u32>,
}

/// Everything needed to wire an interface that moves to another router.
#[derive(Debug)]
pub struct ReplugIfaceSetup {
    /// The interface.
    pub iface_build: IfaceBuild,
    /// Prefix of the lab's resources.
    pub prefix: String,
    /// Root namespace.
    pub root_ns: String,
}

/// A routed interface with addresses from its switch.
pub open spec fn routed_iface(
    ifname: Seq<char>,
    sw: NodeId,
    ip: Option<Ipv4Addr>,
    ip_v6: Option<Ipv6Addr>,
    egress: Option<LinkCondition>,
    idx: u64,
) -> IfaceView {
    IfaceView {
        ifname,
        attachment: IfaceAttachment::Routed(sw),
        ip,
        ip_v6,
        ll_v6: if ip_v6 is Some {
            Some(link_local(idx))
        } else {
            None
        },
        egress,
        ingress: None,
        start_down: false,
        prefix_len: None,
        prefix_len_v6: None,
        idx,
    }
}

/// A dummy interface with the addresses of its configuration.
pub open spec fn dummy_iface(ifname: Seq<char>, config: IfaceConfig, idx: u64) -> IfaceView {
    IfaceView {
        ifname,
        attachment: IfaceAttachment::Dummy,
        ip: match config.addr {
            Some(n) => Some(n.addr),
            None => None,
        },
        ip_v6: match config.addr_v6 {
            Some(n) => Some(n.addr),
            None => None,
        },
        ll_v6: None,
        egress: config.egress,
        ingress: None,
        start_down: config.start_down,
        prefix_len: match config.addr {
            Some(n) => Some(n.prefix_len),
            None => None,
        },
        prefix_len_v6: match config.addr_v6 {
            Some(n) => Some(n.prefix_len),
            None => None,
        },
        idx,
    }
}

/// An interface with the addresses that a configuration sets.
pub open spec fn with_addresses(i: IfaceView, config: IfaceConfig) -> IfaceView {
    IfaceView {
        ip: match config.addr {
            Some(n) => Some(n.addr),
            None => i.ip,
        },
        prefix_len: match config.addr {
            Some(n) => Some(n.prefix_len),
            None => i.prefix_len,
        },
        ip_v6: match config.addr_v6 {
            Some(n) => Some(n.addr),
            None => i.ip_v6,
        },
        prefix_len_v6: match config.addr_v6 {
            Some(n) => Some(n.prefix_len),
            None => i.prefix_len_v6,
        },
        ingress: config.ingress,
        ..i
    }
}

impl CoreView {
    /// Sending the default route of a device through an interface.
    pub open spec fn routed_through(self, device: NodeId, ifname: Seq<char>) -> (
        CoreView,
        Result<(), CoreError>,
    ) {
        if !self.devices.contains_key(device) {
            (self, Err(CoreError::UnknownDevice))
        } else if self.devices[device].place(ifname) is None {
            (self, Err(CoreError::NoSuchIface))
        } else {
            (
                self.with_device(
                    device,
                    DeviceView { default_via: ifname, ..self.devices[device] },
                ),
                Ok(()),
            )
        }
    }

    /// An IPv4 address of a switch, where it has a subnet.
    pub open spec fn take_v4(self, sw: NodeId) -> (CoreView, Result<Option<Ipv4Addr>, CoreError>) {
        if self.switches.contains_key(sw) && self.switches[sw].cidr is Some {
            let (after, r) = self.alloc_host(sw);
            match r {
                Ok(ip) => (after, Ok(Some(ip))),
                Err(e) => (after, Err(e)),
            }
        } else {
            (self, Ok(None))
        }
    }

    /// An IPv6 address of a switch, where it has a subnet.
    pub open spec fn take_v6(self, sw: NodeId) -> (CoreView, Result<Option<Ipv6Addr>, CoreError>) {
        if self.switches.contains_key(sw) && self.switches[sw].cidr_v6 is Some {
            let (after, r) = self.alloc_host_v6(sw);
            match r {
                Ok(ip) => (after, Ok(Some(ip))),
                Err(e) => (after, Err(e)),
            }
        } else {
            (self, Ok(None))
        }
    }

    /// The addresses of a switch for one interface.
    pub open spec fn take_both(self, sw: NodeId) -> (
        CoreView,
        Result<(Option<Ipv4Addr>, Option<Ipv6Addr>), CoreError>,
    ) {
        let (c1, v4) = self.take_v4(sw);
        match v4 {
            Err(e) => (c1, Err(e)),
            Ok(ip) => {
                let (c2, v6) = c1.take_v6(sw);
                match v6 {
                    Err(e) => (c2, Err(e)),
                    Ok(ip_v6) => (c2, Ok((ip, ip_v6))),
                }
            },
        }
    }

    /// Adding an interface to a device, with the next identifier already taken.
    pub open spec fn push_iface(self, device: NodeId, iface: IfaceView) -> (
        CoreView,
        Result<(), CoreError>,
    ) {
        if !self.devices.contains_key(device) {
            (self, Err(CoreError::UnknownDevice))
        } else if self.devices[device].place(iface.ifname) is Some {
            (self, Err(CoreError::DuplicateIface))
        } else {
            (self.with_device(device, self.devices[device].plus(iface)), Ok(()))
        }
    }

    /// Adding a routed interface to a device: addresses first, then the
    /// identifier, then the device. What was taken stays taken where a later
    /// step fails.
    pub open spec fn add_routed(
        self,
        device: NodeId,
        ifname: Seq<char>,
        router: NodeId,
        egress: Option<LinkCondition>,
    ) -> (CoreView, Result<Option<Ipv4Addr>, CoreError>) {
        if !self.routers.contains_key(router) || self.routers[router].downlink is None {
            (self, Err(CoreError::NoDownlink))
        } else {
            let sw = self.routers[router].downlink->0;
            let (c, taken) = self.take_both(sw);
            match taken {
                Err(e) => (c, Err(e)),
                Ok((ip, ip_v6)) => {
                    let (after, r) = c.took_id().push_iface(
                        device,
                        routed_iface(ifname, sw, ip, ip_v6, egress, c.next_id),
                    );
                    match r {
                        Err(e) => (after, Err(e)),
                        Ok(()) => (after, Ok(ip)),
                    }
                },
            }
        }
    }

    /// Adding an interface from a configuration.
    pub open spec fn add_configured(self, device: NodeId, ifname: Seq<char>, config: IfaceConfig) -> (
        CoreView,
        Result<(), CoreError>,
    ) {
        match config.gateway {
            Some(router) => {
                let (c, r) = self.add_routed(device, ifname, router, config.egress);
                match r {
                    Err(e) => (c, Err(e)),
                    Ok(_) => {
                        let d = c.devices[device];
                        let last = d.interfaces.len() - 1;
                        let i = IfaceView {
                            start_down: config.start_down,
                            ..with_addresses(d.interfaces[last], config)
                        };
                        (c.with_device(device, d.with_iface(last, i)), Ok(()))
                    },
                }
            },
            None => self.took_id().push_iface(
                device,
                dummy_iface(ifname, config, self.next_id),
            ),
        }
    }

    /// What wires a routed interface of a device, where its switch and its
    /// gateway router are known.
    pub open spec fn routed_build(self, dev: DeviceView, i: IfaceView) -> Result<
        BuildView,
        CoreError,
    > {
        match i.uplink() {
            None => Err(CoreError::UnknownSwitch),
            Some(sw_id) => if !self.switches.contains_key(sw_id) {
                Err(CoreError::UnknownSwitch)
            } else {
                let sw = self.switches[sw_id];
                match sw.owner_router {
                    None => Err(CoreError::NoOwner),
                    Some(rid) => if !self.routers.contains_key(rid) {
                        Err(CoreError::UnknownRouter)
                    } else {
                        let r = self.routers[rid];
                        Ok(
                            BuildView {
                                dev_ns: dev.ns,
                                gw_ns: r.ns,
                                gw_ip: sw.gw,
                                gw_br: sw.bridge_name(),
                                dev_ip: i.ip,
                                prefix_len: sw.prefix(),
                                gw_ip_v6: sw.gw_v6,
                                dev_ip_v6: i.ip_v6,
                                gw_ll_v6: r.active_ll_v6(),
                                dev_ll_v6: i.ll_v6,
                                prefix_len_v6: sw.prefix_v6(),
                                egress: i.egress,
                                ingress: None,
                                dummy: false,
                                start_down: false,
                                ifname: i.ifname,
                                is_default: false,
                                idx: i.idx,
                            },
                        )
                    },
                }
            },
        }
    }

    /// Adding a routed interface to a device at run time. The name is looked at
    /// before anything is taken.
    pub open spec fn prepared_add(
        self,
        device: NodeId,
        ifname: Seq<char>,
        router: NodeId,
        egress: Option<LinkCondition>,
    ) -> (CoreView, Result<BuildView, CoreError>) {
        if !self.devices.contains_key(device) {
            (self, Err(CoreError::UnknownDevice))
        } else if self.devices[device].place(ifname) is Some {
            (self, Err(CoreError::DuplicateIface))
        } else {
            let (c, r) = self.add_routed(device, ifname, router, egress);
            match r {
                Err(e) => (c, Err(e)),
                Ok(_) => (
                    c,
                    c.routed_build(c.devices[device], c.devices[device].interfaces.last()),
                ),
            }
        }
    }

    /// Moving an interface to another router: new addresses are taken from that
    /// router's switch; the interface itself changes when the wiring is done.
    pub open spec fn prepared_replug(self, device: NodeId, ifname: Seq<char>, to_router: NodeId) -> (
        CoreView,
        Result<BuildView, CoreError>,
    ) {
        if !self.devices.contains_key(device) {
            (self, Err(CoreError::UnknownDevice))
        } else if self.devices[device].place(ifname) is None {
            (self, Err(CoreError::NoSuchIface))
        } else if !self.routers.contains_key(to_router) {
            (self, Err(CoreError::UnknownRouter))
        } else if self.routers[to_router].downlink is None {
            (self, Err(CoreError::NoDownlink))
        } else if !self.switches.contains_key(self.routers[to_router].downlink->0) {
            (self, Err(CoreError::UnknownSwitch))
        } else {
            let dev = self.devices[device];
            let i = dev.iface(ifname)->0;
            let r = self.routers[to_router];
            let sw = self.switches[r.downlink->0];
            let (c, taken) = self.take_both(r.downlink->0);
            match taken {
                Err(e) => (c, Err(e)),
                Ok((ip, ip_v6)) => (
                    c,
                    Ok(
                        BuildView {
                            dev_ns: dev.ns,
                            gw_ns: r.ns,
                            gw_ip: sw.gw,
                            gw_br: sw.bridge_name(),
                            dev_ip: ip,
                            prefix_len: sw.prefix(),
                            gw_ip_v6: sw.gw_v6,
                            dev_ip_v6: ip_v6,
                            gw_ll_v6: r.active_ll_v6(),
                            dev_ll_v6: if ip_v6 is Some {
                                Some(link_local(i.idx))
                            } else {
                                None
                            },
                            prefix_len_v6: sw.prefix_v6(),
                            egress: i.egress,
                            ingress: None,
                            dummy: false,
                            start_down: false,
                            ifname,
                            is_default: ifname == dev.default_via,
                            idx: i.idx,
                        },
                    ),
                ),
            }
        }
    }

    /// The topology once an interface is wired to another router. A device
    /// without such an interface is left as it is.
    pub open spec fn replugged(
        self,
        device: NodeId,
        ifname: Seq<char>,
        to_router: NodeId,
        ip: Option<Ipv4Addr>,
        ip_v6: Option<Ipv6Addr>,
    ) -> (CoreView, Result<(), CoreError>) {
        if !self.routers.contains_key(to_router) {
            (self, Err(CoreError::UnknownRouter))
        } else if self.routers[to_router].downlink is None {
            (self, Err(CoreError::NoDownlink))
        } else if !self.devices.contains_key(device) {
            (self, Err(CoreError::UnknownDevice))
        } else {
            let d = self.devices[device];
            match d.place(ifname) {
                None => (self, Ok(())),
                Some(k) => (
                    self.with_device(
                        device,
                        d.with_iface(
                            k,
                            IfaceView {
                                attachment: IfaceAttachment::Routed(
                                    self.routers[to_router].downlink->0,
                                ),
                                ip,
                                ip_v6,
                                ll_v6: if ip_v6 is Some {
                                    Some(link_local(d.interfaces[k].idx))
                                } else {
                                    None
                                },
                                ..d.interfaces[k]
                            },
                        ),
                    ),
                    Ok(()),
                ),
            }
        }
    }

    /// Taking a new address for an interface.
    pub open spec fn renewed(self, device: NodeId, ifname: Seq<char>) -> (
        CoreView,
        Result<(Seq<char>, Ipv4Addr, Ipv4Addr, u8), CoreError>,
    ) {
        if !self.devices.contains_key(device) {
            (self, Err(CoreError::UnknownDevice))
        } else {
            let d = self.devices[device];
            match d.place(ifname) {
                None => (self, Err(CoreError::NoSuchIface)),
                Some(k) => {
                    let i = d.interfaces[k];
                    if i.ip is None {
                        (self, Err(CoreError::NoIpv4))
                    } else if i.uplink() is None {
                        (self, Err(CoreError::DummyIface))
                    } else if !self.switches.contains_key(i.uplink()->0) {
                        (self, Err(CoreError::UnknownSwitch))
                    } else {
                        let sw = i.uplink()->0;
                        let (c, r) = self.alloc_host(sw);
                        match r {
                            Err(e) => (c, Err(e)),
                            Ok(ip) => (
                                c.with_device(
                                    device,
                                    d.with_iface(k, IfaceView { ip: Some(ip), ..i }),
                                ),
                                Ok((d.ns, i.ip->0, ip, self.switches[sw].prefix())),
                            ),
                        }
                    }
                },
            }
        }
    }
}

/// What wires an interface when its device is built.
pub open spec fn device_build(
    c: CoreView,
    dev: DeviceView,
    i: IfaceView,
    mode: Ipv6ProvisioningMode,
) -> Result<BuildView, CoreError> {
    if i.attachment is Dummy {
        Ok(
            BuildView {
                dev_ns: dev.ns,
                gw_ns: ""@,
                gw_ip: None,
                gw_br: ""@,
                dev_ip: i.ip,
                prefix_len: match i.prefix_len {
                    Some(n) => n,
                    None => 24,
                },
                gw_ip_v6: None,
                dev_ip_v6: i.ip_v6,
                gw_ll_v6: None,
                dev_ll_v6: None,
                prefix_len_v6: match i.prefix_len_v6 {
                    Some(n) => n,
                    None => 64,
                },
                egress: i.egress,
                ingress: None,
                dummy: true,
                start_down: i.start_down,
                ifname: i.ifname,
                is_default: i.ifname == dev.default_via,
                idx: i.idx,
            },
        )
    } else {
        let sw_id = i.uplink()->0;
        if !c.switches.contains_key(sw_id) {
            Err(CoreError::UnknownSwitch)
        } else {
            let sw = c.switches[sw_id];
            match sw.owner_router {
                None => Err(CoreError::NoOwner),
                Some(rid) => {
                    let r = c.routers[rid];
                    Ok(
                        BuildView {
                            dev_ns: dev.ns,
                            gw_ns: r.ns,
                            gw_ip: sw.gw,
                            gw_br: sw.bridge_name(),
                            dev_ip: i.ip,
                            prefix_len: match i.prefix_len {
                                Some(n) => n,
                                None => sw.prefix(),
                            },
                            gw_ip_v6: if mode is RaDriven {
                                None
                            } else {
                                sw.gw_v6
                            },
                            dev_ip_v6: i.ip_v6,
                            gw_ll_v6: if mode is RaDriven {
                                r.active_ll_v6()
                            } else {
                                r.downstream_ll_v6
                            },
                            dev_ll_v6: i.ll_v6,
                            prefix_len_v6: match i.prefix_len_v6 {
                                Some(n) => n,
                                None => sw.prefix_v6(),
                            },
                            egress: i.egress,
                            ingress: i.ingress,
                            dummy: false,
                            start_down: i.start_down,
                            ifname: i.ifname,
                            is_default: i.ifname == dev.default_via,
                            idx: i.idx,
                        },
                    )
                },
            }
        }
    }
}

/// The interfaces up to place `n` wired one by one; the first failure counts.
pub open spec fn device_builds(
    c: CoreView,
    dev: DeviceView,
    mode: Ipv6ProvisioningMode,
    n: int,
) -> Result<Seq<BuildView>, CoreError>
    decreases n,
{
    if n <= 0 {
        Ok(Seq::empty())
    } else {
        match device_builds(c, dev, mode, n - 1) {
            Err(e) => Err(e),
            Ok(before) => match device_build(c, dev, dev.interfaces[n - 1], mode) {
                Err(e) => Err(e),
                Ok(b) => Ok(before.push(b)),
            },
        }
    }
}

/// The views of a list of wirings.
pub open spec fn build_views(v: Seq<IfaceBuild>) -> Seq<BuildView> {
    Seq::new(v.len(), |i: int| v[i]@)
}

/// Whether the result of wiring up to place `n` failed.
proof fn failure_stays(c: CoreView, dev: DeviceView, mode: Ipv6ProvisioningMode, n: int, m: int)
    requires
        0 <= n <= m,
        device_builds(c, dev, mode, n) is Err,
    ensures
        device_builds(c, dev, mode, m) == device_builds(c, dev, mode, n),
    decreases m - n,
{
    if n < m {
        failure_stays(c, dev, mode, n, m - 1);
    }
}

impl CoreView {
    /// The switch of an interface belongs to a router that is there, where it
    /// belongs to one.
    pub open spec fn owner_known(self, i: IfaceView) -> bool {
        match i.uplink() {
            Some(sw) => self.switches.contains_key(sw) && self.switches[sw].owner_router is Some
                ==> self.routers.contains_key(self.switches[sw].owner_router->0),
            None => true,
        }
    }

    /// The switch of an interface, where it has one, is there and belongs to a
    /// router.
    pub open spec fn wirable(self, i: IfaceView) -> bool {
        match i.uplink() {
            Some(sw) => self.switches.contains_key(sw) && self.switches[sw].owner_router is Some,
            None => true,
        }
    }

    /// The switches of a device's interfaces belong to routers that are there,
    /// up to the first interface that cannot be wired at all.
    pub open spec fn owners_known(self, d: DeviceView) -> bool {
        forall|i: int|
            0 <= i < d.interfaces.len() && (forall|j: int|
                0 <= j < i ==> self.wirable(#[trigger] d.interfaces[j])) ==> self.owner_known(
                #[trigger] d.interfaces[i],
            )
    }
}

fn build_iface(core: &NetworkCore, dev: &DeviceData, i: usize, mode: Ipv6ProvisioningMode) -> (r:
    Result<IfaceBuild, CoreError>)
    requires
        core.wf(),
        i < dev.interfaces.len(),
        core@.owner_known(dev@.interfaces[i as int]),
    ensures
        match r {
            Ok(b) => device_build(core@, dev@, dev@.interfaces[i as int], mode) == Ok::<
                BuildView,
                CoreError,
            >(b@),
            Err(e) => device_build(core@, dev@, dev@.interfaces[i as int], mode) == Err::<
                BuildView,
                CoreError,
            >(e),
        },
{
    let iface = &dev.interfaces[i];
    let is_default = iface.ifname == dev.default_via;
    let ra = mode == Ipv6ProvisioningMode::RaDriven;
    let sw_id = match iface.uplink() {
        None => {
            return Ok(
                IfaceBuild {
                    dev_ns: dev.ns.clone(),
                    gw_ns: "".to_owned(),
                    gw_ip: None,
                    gw_br: "".to_owned(),
                    dev_ip: iface.ip,
                    prefix_len: match iface.prefix_len {
                        Some(n) => n,
                        None => 24,
                    },
                    gw_ip_v6: None,
                    dev_ip_v6: iface.ip_v6,
                    gw_ll_v6: None,
                    dev_ll_v6: None,
                    prefix_len_v6: match iface.prefix_len_v6 {
                        Some(n) => n,
                        None => 64,
                    },
                    egress: iface.egress,
                    ingress: None,
                    dummy: true,
                    start_down: iface.start_down,
                    ifname: iface.ifname.clone(),
                    is_default,
                    idx: iface.idx,
                },
            );
        },
        Some(id) => id,
    };
    let sw = match core.switches.get(&sw_id) {
        None => {
            return Err(CoreError::UnknownSwitch);
        },
        Some(sw) => sw,
    };
    let rid = match sw.owner_router {
        None => {
            return Err(CoreError::NoOwner);
        },
        Some(rid) => rid,
    };
    assert(core@.switches.contains_key(sw_id));
    let router = match core.routers.get(&rid) {
        None => {
            return Err(CoreError::UnknownRouter);
        },
        Some(x) => x,
    };
    Ok(
        IfaceBuild {
            dev_ns: dev.ns.clone(),
            gw_ns: router.ns.clone(),
            gw_ip: sw.gw,
            gw_br: sw.bridge_name(),
            dev_ip: iface.ip,
            prefix_len: match iface.prefix_len {
                Some(n) => n,
                None => sw.prefix(),
            },
            gw_ip_v6: if ra {
                None
            } else {
                sw.gw_v6
            },
            dev_ip_v6: iface.ip_v6,
            gw_ll_v6: if ra {
                router.active_downstream_ll_v6()
            } else {
                router.downstream_ll_v6
            },
            dev_ll_v6: iface.ll_v6,
            prefix_len_v6: match iface.prefix_len_v6 {
                Some(n) => n,
                None => sw.prefix_v6(),
            },
            egress: iface.egress,
            ingress: iface.ingress,
            dummy: false,
            start_down: iface.start_down,
            ifname: iface.ifname.clone(),
            is_default,
            idx: iface.idx,
        },
    )
}

impl NetworkCore {
    fn take_addresses(&mut self, sw: NodeId) -> (r: Result<
        (Option<Ipv4Addr>, Option<Ipv6Addr>),
        CoreError,
    >)
        requires
            old(self).wf(),
        ensures
            final(self).wf(),
            (final(self)@, r) == old(self)@.take_both(sw),
            final(self)@.next_id == old(self)@.next_id,
            final(self)@.devices == old(self)@.devices,
            final(self)@.routers == old(self)@.routers,
    {
        let has_v4 = match self.switches.get(&sw) {
            Some(s) => s.cidr.is_some(),
            None => false,
        };
        let ip = if has_v4 {
            match self.alloc_from_switch(sw) {
                Ok(ip) => Some(ip),
                Err(e) => {
                    return Err(e);
                },
            }
        } else {
            None
        };
        let has_v6 = match self.switches.get(&sw) {
            Some(s) => s.cidr_v6.is_some(),
            None => false,
        };
        let ip_v6 = if has_v6 {
            match self.alloc_from_switch_v6(sw) {
                Ok(ip) => Some(ip),
                Err(e) => {
                    return Err(e);
                },
            }
        } else {
            None
        };
        Ok((ip, ip_v6))
    }

    fn attach(&mut self, device: NodeId, iface: DeviceIfaceData) -> (r: Result<(), CoreError>)
        requires
            old(self).wf(),
        ensures
            final(self).wf(),
            (final(self)@, r) == old(self)@.push_iface(device, iface@),
            r is Ok ==> final(self)@.devices[device].place(iface@.ifname) == Some(
                old(self)@.devices[device].interfaces.len() as int,
            ),
    {
        match self.devices.get(&device) {
            None => {
                return Err(CoreError::UnknownDevice);
            },
            Some(dev) => {
                if dev.find_iface(iface.ifname.as_str()).is_some() {
                    return Err(CoreError::DuplicateIface);
                }
            },
        }
        let ghost before = self@.devices[device];
        proof {
            plus_keeps_wf(before, iface@);
        }
        if let Some(dev) = self.devices.get_mut(&device) {
            if dev.interfaces.len() == 0 {
                dev.default_via = iface.ifname.clone();
            }
            dev.interfaces.push(iface);
            assert(dev@.interfaces =~= before.interfaces.push(iface@));
        }
        Ok(())
    }

    /// Adds an interface to a device, connected to a router's downstream
    /// switch, and returns the IPv4 address it got.
    pub fn add_device_iface(
        &mut self,
        device: NodeId,
        ifname: &str,
        router: NodeId,
        impair: Option<LinkCondition>,
    ) -> (r: Result<Option<Ipv4Addr>, CoreError>)
        requires
            old(self).wf(),
            old(self).next_id < u64::MAX,
        ensures
            final(self).wf(),
            (final(self)@, r) == old(self)@.add_routed(device, ifname@, router, impair),
            r is Ok ==> old(self)@.devices.contains_key(device)
                && final(self)@.devices[device].place(ifname@) == Some(
                old(self)@.devices[device].interfaces.len() as int,
            ) && final(self)@.devices[device].interfaces.len()
                == old(self)@.devices[device].interfaces.len() + 1,
    {
        let downlink = match self.routers.get(&router) {
            None => {
                return Err(CoreError::NoDownlink);
            },
            Some(x) => match x.downlink {
                None => {
                    return Err(CoreError::NoDownlink);
                },
                Some(sw) => sw,
            },
        };
        let (ip, ip_v6) = match self.take_addresses(downlink) {
            Ok(x) => x,
            Err(e) => {
                return Err(e);
            },
        };
        let idx: u64 = self.alloc_id();
        let iface = DeviceIfaceData {
            ifname: ifname.to_owned(),
            attachment: IfaceAttachment::Routed(downlink),
            ip,
            ip_v6,
            ll_v6: if ip_v6.is_some() {
                Some(link_local_from_seed(idx))
            } else {
                None
            },
            egress: impair,
            ingress: None,
            start_down: false,
            prefix_len: None,
            prefix_len_v6: None,
            idx,
        };
        match self.attach(device, iface) {
            Ok(()) => Ok(ip),
            Err(e) => Err(e),
        }
    }

    /// Changes the interface at a place without touching its name.
    fn put_iface(&mut self, device: NodeId, k: usize, iface: DeviceIfaceData)
        requires
            old(self).wf(),
            old(self)@.devices.contains_key(device),
            k < old(self)@.devices[device].interfaces.len(),
            iface@.ifname == old(self)@.devices[device].interfaces[k as int].ifname,
        ensures
            final(self).wf(),
            final(self)@ == old(self)@.with_device(
                device,
                old(self)@.devices[device].with_iface(k as int, iface@),
            ),
    {
        let ghost before = self@.devices[device];
        proof {
            change_keeps_wf(before, k as int, iface@);
        }
        if let Some(dev) = self.devices.get_mut(&device) {
            dev.interfaces.set(k, iface);
            assert(dev@.interfaces =~= before.interfaces.update(k as int, iface@));
        }
    }

    /// A copy of the interface at a place.
    fn copy_iface(&self, device: NodeId, k: usize) -> (r: DeviceIfaceData)
        requires
            self.wf(),
            self@.devices.contains_key(device),
            k < self@.devices[device].interfaces.len(),
        ensures
            r@ == self@.devices[device].interfaces[k as int],
    {
        let dev = self.devices.get(&device).unwrap();
        let i = &dev.interfaces[k];
        DeviceIfaceData {
            ifname: i.ifname.clone(),
            attachment: i.attachment,
            ip: i.ip,
            ip_v6: i.ip_v6,
            ll_v6: i.ll_v6,
            egress: i.egress,
            ingress: i.ingress,
            start_down: i.start_down,
            prefix_len: i.prefix_len,
            prefix_len_v6: i.prefix_len_v6,
            idx: i.idx,
        }
    }

    /// Adds an interface to a device from a configuration, routed or dummy.
    pub fn add_device_iface_from_config(
        &mut self,
        device: NodeId,
        ifname: &str,
        config: IfaceConfig,
    ) -> (r: Result<(), CoreError>)
        requires
            old(self).wf(),
            old(self).next_id < u64::MAX,
        ensures
            final(self).wf(),
            (final(self)@, r) == old(self)@.add_configured(device, ifname@, config),
    {
        if let Some(router) = config.gateway {
            if let Err(e) = self.add_device_iface(device, ifname, router, config.egress) {
                return Err(e);
            }
            let k = match self.devices.get(&device) {
                Some(dev) => dev.interfaces.len() - 1,
                None => 0,
            };
            let mut iface = self.copy_iface(device, k);
            if let Some(addr) = config.addr {
                iface.ip = Some(addr.addr);
                iface.prefix_len = Some(addr.prefix_len);
            }
            if let Some(addr) = config.addr_v6 {
                iface.ip_v6 = Some(addr.addr);
                iface.prefix_len_v6 = Some(addr.prefix_len);
            }
            iface.ingress = config.ingress;
            iface.start_down = config.start_down;
            self.put_iface(device, k, iface);
            Ok(())
        } else {
            let idx: u64 = self.alloc_id();
            let iface = DeviceIfaceData {
                ifname: ifname.to_owned(),
                attachment: IfaceAttachment::Dummy,
                ip: match config.addr {
                    Some(n) => Some(n.addr),
                    None => None,
                },
                ip_v6: match config.addr_v6 {
                    Some(n) => Some(n.addr),
                    None => None,
                },
                ll_v6: None,
                egress: config.egress,
                ingress: None,
                start_down: config.start_down,
                prefix_len: match config.addr {
                    Some(n) => Some(n.prefix_len),
                    None => None,
                },
                prefix_len_v6: match config.addr_v6 {
                    Some(n) => Some(n.prefix_len),
                    None => None,
                },
                idx,
            };
            self.attach(device, iface)
        }
    }

    /// Registers a new interface on a device and returns everything needed to
    /// wire it.
    pub fn prepare_add_iface(
        &mut self,
        device: NodeId,
        ifname: &str,
        router: NodeId,
        impair: Option<LinkCondition>,
    ) -> (r: Result<AddIfaceSetup, CoreError>)
        requires
            old(self).wf(),
            old(self).next_id < u64::MAX,
        ensures
            final(self).wf(),
            final(self)@ == old(self)@.prepared_add(device, ifname@, router, impair).0,
            match r {
                Ok(s) => {
                    &&& old(self)@.prepared_add(device, ifname@, router, impair).1 == Ok::<
                        BuildView,
                        CoreError,
                    >(s.iface_build@)
                    &&& s.prefix@ == old(self)@.cfg.prefix@
                    &&& s.root_ns@ == old(self)@.cfg.root_ns@
                    &&& s.mtu == old(self)@.devices[device].mtu
                },
                Err(e) => old(self)@.prepared_add(device, ifname@, router, impair).1 == Err::<
                    BuildView,
                    CoreError,
                >(e),
            },
    {
        match self.devices.get(&device) {
            None => {
                return Err(CoreError::UnknownDevice);
            },
            Some(dev) => {
                if dev.find_iface(ifname).is_some() {
                    return Err(CoreError::DuplicateIface);
                }
            },
        }
        if let Err(e) = self.add_device_iface(device, ifname, router, impair) {
            return Err(e);
        }
        let dev = self.devices.get(&device).unwrap();
        let iface = &dev.interfaces[dev.interfaces.len() - 1];
        assert(iface@ == self@.devices[device].interfaces.last());
        let sw = match iface.uplink() {
            None => {
                return Err(CoreError::UnknownSwitch);
            },
            Some(id) => match self.switches.get(&id) {
                None => {
                    return Err(CoreError::UnknownSwitch);
                },
                Some(sw) => sw,
            },
        };
        let gw_router = match sw.owner_router {
            None => {
                return Err(CoreError::NoOwner);
            },
            Some(rid) => match self.routers.get(&rid) {
                None => {
                    return Err(CoreError::UnknownRouter);
                },
                Some(x) => x,
            },
        };
        let iface_build = IfaceBuild {
            dev_ns: dev.ns.clone(),
            gw_ns: gw_router.ns.clone(),
            gw_ip: sw.gw,
            gw_br: sw.bridge_name(),
            dev_ip: iface.ip,
            prefix_len: sw.prefix(),
            gw_ip_v6: sw.gw_v6,
            dev_ip_v6: iface.ip_v6,
            gw_ll_v6: gw_router.active_downstream_ll_v6(),
            dev_ll_v6: iface.ll_v6,
            prefix_len_v6: sw.prefix_v6(),
            egress: iface.egress,
            ingress: None,
            dummy: false,
            start_down: false,
            ifname: iface.ifname.clone(),
            is_default: false,
            idx: iface.idx,
        };
        Ok(
            AddIfaceSetup {
                iface_build,
                prefix: self.cfg.prefix.clone(),
                root_ns: self.cfg.root_ns.clone(),
                mtu: dev.mtu,
            },
        )
    }

    /// Takes addresses for moving an interface to another router and returns
    /// everything needed to wire it there.
    pub fn prepare_replug_iface(&mut self, device: NodeId, ifname: &str, to_router: NodeId) -> (r:
        Result<ReplugIfaceSetup, CoreError>)
        requires
            old(self).wf(),
        ensures
            final(self).wf(),
            final(self)@ == old(self)@.prepared_replug(device, ifname@, to_router).0,
            match r {
                Ok(s) => {
                    &&& old(self)@.prepared_replug(device, ifname@, to_router).1 == Ok::<
                        BuildView,
                        CoreError,
                    >(s.iface_build@)
                    &&& s.prefix@ == old(self)@.cfg.prefix@
                    &&& s.root_ns@ == old(self)@.cfg.root_ns@
                },
                Err(e) => old(self)@.prepared_replug(device, ifname@, to_router).1 == Err::<
                    BuildView,
                    CoreError,
                >(e),
            },
    {
        let (dev_ns, old_idx, egress, is_default) = match self.devices.get(&device) {
            None => {
                return Err(CoreError::UnknownDevice);
            },
            Some(dev) => match dev.find_iface(ifname) {
                None => {
                    return Err(CoreError::NoSuchIface);
                },
                Some(k) => (
                    dev.ns.clone(),
                    dev.interfaces[k].idx,
                    dev.interfaces[k].egress,
                    str_eq(ifname, dev.default_via.as_str()),
                ),
            },
        };
        let (gw_ns, downlink, gw_ll_v6) = match self.routers.get(&to_router) {
            None => {
                return Err(CoreError::UnknownRouter);
            },
            Some(x) => match x.downlink {
                None => {
                    return Err(CoreError::NoDownlink);
                },
                Some(sw) => (x.ns.clone(), sw, x.active_downstream_ll_v6()),
            },
        };
        let (gw_ip, gw_br, prefix_len, gw_ip_v6, prefix_len_v6) = match self.switches.get(
            &downlink,
        ) {
            None => {
                return Err(CoreError::UnknownSwitch);
            },
            Some(sw) => (sw.gw, sw.bridge_name(), sw.prefix(), sw.gw_v6, sw.prefix_v6()),
        };
        let (new_ip, new_ip_v6) = match self.take_addresses(downlink) {
            Ok(x) => x,
            Err(e) => {
                return Err(e);
            },
        };
        let iface_build = IfaceBuild {
            dev_ns,
            gw_ns,
            gw_ip,
            gw_br,
            dev_ip: new_ip,
            prefix_len,
            gw_ip_v6,
            dev_ip_v6: new_ip_v6,
            gw_ll_v6,
            dev_ll_v6: if new_ip_v6.is_some() {
                Some(link_local_from_seed(old_idx))
            } else {
                None
            },
            prefix_len_v6,
            egress,
            ingress: None,
            dummy: false,
            start_down: false,
            ifname: ifname.to_owned(),
            is_default,
            idx: old_idx,
        };
        Ok(
            ReplugIfaceSetup {
                iface_build,
                prefix: self.cfg.prefix.clone(),
                root_ns: self.cfg.root_ns.clone(),
            },
        )
    }

    /// Updates an interface after it was wired to another router.
    pub fn finish_replug_iface(
        &mut self,
        device: NodeId,
        ifname: &str,
        to_router: NodeId,
        new_ip: Option<Ipv4Addr>,
        new_ip_v6: Option<Ipv6Addr>,
    ) -> (r: Result<(), CoreError>)
        requires
            old(self).wf(),
        ensures
            final(self).wf(),
            (final(self)@, r) == old(self)@.replugged(
                device,
                ifname@,
                to_router,
                new_ip,
                new_ip_v6,
            ),
    {
        let new_uplink = match self.routers.get(&to_router) {
            None => {
                return Err(CoreError::UnknownRouter);
            },
            Some(x) => match x.downlink {
                None => {
                    return Err(CoreError::NoDownlink);
                },
                Some(sw) => sw,
            },
        };
        let k = match self.devices.get(&device) {
            None => {
                return Err(CoreError::UnknownDevice);
            },
            Some(dev) => match dev.find_iface(ifname) {
                None => {
                    return Ok(());
                },
                Some(k) => k,
            },
        };
        let mut iface = self.copy_iface(device, k);
        iface.attachment = IfaceAttachment::Routed(new_uplink);
        iface.ip = new_ip;
        iface.ip_v6 = new_ip_v6;
        iface.ll_v6 = if new_ip_v6.is_some() {
            Some(link_local_from_seed(iface.idx))
        } else {
            None
        };
        self.put_iface(device, k, iface);
        Ok(())
    }

    /// Changes which interface carries the default route.
    pub fn set_device_default_via(&mut self, device: NodeId, ifname: &str) -> (r: Result<
        (),
        CoreError,
    >)
        requires
            old(self).wf(),
        ensures
            final(self).wf(),
            (final(self)@, r) == old(self)@.routed_through(device, ifname@),
    {
        match self.devices.get(&device) {
            None => {
                return Err(CoreError::UnknownDevice);
            },
            Some(dev) => {
                if dev.find_iface(ifname).is_none() {
                    return Err(CoreError::NoSuchIface);
                }
            },
        }
        if let Some(dev) = self.devices.get_mut(&device) {
            dev.default_via = ifname.to_owned();
        }
        Ok(())
    }

    /// Removes an interface from a device and returns the device's namespace.
    ///
    /// A device keeps at least one interface. Where the default route went
    /// through the one removed, it goes through the first one left.
    pub fn remove_device_iface(&mut self, device: NodeId, ifname: &str) -> (r: Result<
        String,
        CoreError,
    >)
        requires
            old(self).wf(),
        ensures
            final(self).wf(),
            !old(self)@.devices.contains_key(device) ==> r is Err && r->Err_0
                == CoreError::UnknownDevice,
            old(self)@.devices.contains_key(device) ==> {
                let d = old(self)@.devices[device];
                if d.interfaces.len() <= 1 {
                    r is Err && r->Err_0 == CoreError::LastIface
                } else {
                    match d.place(ifname@) {
                        None => r is Err && r->Err_0 == CoreError::NoSuchIface,
                        Some(k) => {
                            &&& r is Ok
                            &&& r->Ok_0@ == d.ns
                            &&& final(self)@ == old(self)@.with_device(device, d.minus(k))
                        },
                    }
                }
            },
            r is Err ==> final(self)@ == old(self)@,
    {
        let k = match self.devices.get(&device) {
            None => {
                return Err(CoreError::UnknownDevice);
            },
            Some(dev) => {
                if dev.interfaces.len() <= 1 {
                    return Err(CoreError::LastIface);
                }
                match dev.find_iface(ifname) {
                    None => {
                        return Err(CoreError::NoSuchIface);
                    },
                    Some(k) => k,
                }
            },
        };
        let ghost before = self@.devices[device];
        proof {
            iface_from_is_first(before.interfaces, ifname@, 0);
            minus_keeps_wf(before, k as int);
        }
        let mut ns = String::new();
        if let Some(dev) = self.devices.get_mut(&device) {
            dev.interfaces.remove(k);
            assert(iface_views(dev.interfaces@) =~= before.interfaces.remove(k as int));
            if str_eq(dev.default_via.as_str(), ifname) {
                dev.default_via = dev.interfaces[0].ifname.clone();
            }
            ns = dev.ns.clone();
        }
        Ok(ns)
    }

    /// Takes a new IPv4 address for an interface; returns the namespace, the
    /// old and the new address, and the prefix length.
    pub fn renew_device_ip(&mut self, device: NodeId, ifname: &str) -> (r: Result<
        (String, Ipv4Addr, Ipv4Addr, u8),
        CoreError,
    >)
        requires
            old(self).wf(),
        ensures
            final(self).wf(),
            final(self)@ == old(self)@.renewed(device, ifname@).0,
            match r {
                Ok((ns, a, b, n)) => old(self)@.renewed(device, ifname@).1 == Ok::<
                    (Seq<char>, Ipv4Addr, Ipv4Addr, u8),
                    CoreError,
                >((ns@, a, b, n)),
                Err(e) => old(self)@.renewed(device, ifname@).1 == Err::<
                    (Seq<char>, Ipv4Addr, Ipv4Addr, u8),
                    CoreError,
                >(e),
            },
    {
        let (k, ns, old_ip, sw_id) = match self.devices.get(&device) {
            None => {
                return Err(CoreError::UnknownDevice);
            },
            Some(dev) => match dev.find_iface(ifname) {
                None => {
                    return Err(CoreError::NoSuchIface);
                },
                Some(k) => {
                    let old_ip = match dev.interfaces[k].ip {
                        None => {
                            return Err(CoreError::NoIpv4);
                        },
                        Some(ip) => ip,
                    };
                    let sw_id = match dev.interfaces[k].uplink() {
                        None => {
                            return Err(CoreError::DummyIface);
                        },
                        Some(id) => id,
                    };
                    (k, dev.ns.clone(), old_ip, sw_id)
                },
            },
        };
        let prefix_len = match self.switches.get(&sw_id) {
            None => {
                return Err(CoreError::UnknownSwitch);
            },
            Some(sw) => sw.prefix(),
        };
        let new_ip = match self.alloc_from_switch(sw_id) {
            Ok(ip) => ip,
            Err(e) => {
                return Err(e);
            },
        };
        let mut iface = self.copy_iface(device, k);
        iface.ip = Some(new_ip);
        self.put_iface(device, k, iface);
        Ok((ns, old_ip, new_ip, prefix_len))
    }

    /// Finishes a device: stores its MTU and IPv6 provisioning and returns what
    /// wires each of its interfaces, with the provisioning in effect.
    pub fn build_device(
        &mut self,
        device: NodeId,
        mtu: Option<u32>,
        provisioning: Option<Ipv6ProvisioningMode>,
        lab_mode: Ipv6ProvisioningMode,
    ) -> (r: Result<(Vec<IfaceBuild>, Ipv6ProvisioningMode), CoreError>)
        requires
            old(self).wf(),
            old(self)@.devices.contains_key(device) ==> old(self)@.owners_known(
                old(self)@.devices[device],
            ),
        ensures
            final(self).wf(),
            !old(self)@.devices.contains_key(device) ==> r is Err && r->Err_0
                == CoreError::UnknownDevice && final(self)@ == old(self)@,
            old(self)@.devices.contains_key(device) ==> {
                let d = DeviceView {
                    mtu,
                    provisioning_mode: provisioning,
                    ..old(self)@.devices[device]
                };
                let c = old(self)@.with_device(device, d);
                let mode = match provisioning {
                    Some(m) => m,
                    None => lab_mode,
                };
                &&& final(self)@ == c
                &&& match device_builds(c, d, mode, d.interfaces.len() as int) {
                    Ok(b) => r is Ok && build_views(r->Ok_0.0@) == b && r->Ok_0.1 == mode,
                    Err(e) => r is Err && r->Err_0 == e,
                }
            },
    {
        let ghost before = self@;
        if !self.devices.contains_key(&device) {
            return Err(CoreError::UnknownDevice);
        }
        if let Some(dev) = self.devices.get_mut(&device) {
            dev.mtu = mtu;
            dev.provisioning_mode = provisioning;
        }
        let mode = match provisioning {
            Some(m) => m,
            None => lab_mode,
        };
        let ghost d = DeviceView {
            mtu,
            provisioning_mode: provisioning,
            ..before.devices[device]
        };
        assert(self@.switches == before.switches && self@.routers == before.routers);
        assert(self@.owners_known(d)) by {
            assert forall|i: int|
                0 <= i < d.interfaces.len() && (forall|j: int|
                    0 <= j < i ==> self@.wirable(#[trigger] d.interfaces[j])) implies self@.owner_known(
                #[trigger] d.interfaces[i],
            ) by {
                assert forall|j: int| 0 <= j < i implies before.wirable(
                    #[trigger] before.devices[device].interfaces[j],
                ) by {
                    assert(self@.wirable(d.interfaces[j]));
                }
                assert(before.owner_known(before.devices[device].interfaces[i]));
            }
        }
        let dev = self.devices.get(&device).unwrap();
        let mut out: Vec<IfaceBuild> = Vec::new();
        let mut i: usize = 0;
        assert(build_views(out@) =~= Seq::<BuildView>::empty());
        while i < dev.interfaces.len()
            invariant
                self.wf(),
                self@.owners_known(d),
                forall|j: int| 0 <= j < i ==> self@.wirable(#[trigger] d.interfaces[j]),
                dev@ == d,
                i <= dev.interfaces.len(),
                device_builds(self@, d, mode, i as int) == Ok::<Seq<BuildView>, CoreError>(
                    build_views(out@),
                ),
                old(self)@.devices.contains_key(device),
                d == (DeviceView {
                    mtu,
                    provisioning_mode: provisioning,
                    ..old(self)@.devices[device]
                }),
                self@ == old(self)@.with_device(device, d),
                mode == (match provisioning {
                    Some(m) => m,
                    None => lab_mode,
                }),
            decreases dev.interfaces.len() - i,
        {
            let ghost done = build_views(out@);
            assert(self@.owner_known(d.interfaces[i as int]));
            match build_iface(self, dev, i, mode) {
                Ok(b) => {
                    out.push(b);
                    assert(build_views(out@) =~= done.push(b@));
                },
                Err(e) => {
                    proof {
                        assert(device_builds(self@, d, mode, i as int + 1) is Err);
                        failure_stays(
                            self@,
                            d,
                            mode,
                            i as int + 1,
                            d.interfaces.len() as int,
                        );
                    }
                    return Err(e);
                },
            }
            i += 1;
        }
        Ok((out, mode))
    }
}

/// A device that had an interface has one after any of them is removed, and the
/// default route goes through one of those.
pub proof fn removing_keeps_a_default(d: DeviceView, i: int)
    requires
        d.wf(),
        d.interfaces.len() > 1,
        0 <= i < d.interfaces.len(),
    ensures
        d.minus(i).interfaces.len() >= 1,
        d.minus(i).iface(d.minus(i).default_via) is Some,
{
    minus_keeps_wf(d, i);
}

/// The first interface that a device gets carries the default route, and another
/// one that is added does not take it over.
pub proof fn adding_keeps_the_default(
    c: CoreView,
    device: NodeId,
    ifname: Seq<char>,
    config: IfaceConfig,
)
    requires
        c.devices.contains_key(device),
        c.add_configured(device, ifname, config).1 is Ok,
    ensures
        ({
            let before = c.devices[device];
            let after = c.add_configured(device, ifname, config).0.devices[device];
            &&& after.interfaces.len() == before.interfaces.len() + 1
            &&& after.default_via == (if before.interfaces.len() == 0 {
                ifname
            } else {
                before.default_via
            })
        }),
{
}

} // verus!
