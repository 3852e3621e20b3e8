//! What becomes of a device's interfaces: where they are attached, which
//! addresses and which gateway they have, and what stays as it was.
use vstd::prelude::*;

use crate::addr::{Ipv4Addr, Ipv6Addr};
use crate::iface::IfaceConfig;
use crate::profile::{Ipv6ProvisioningMode, LinkDirection};
use crate::qdisc::LinkCondition;
use crate::topology::ifaces::{device_build, device_builds};
use crate::topology::nodes::{uplink_from, uplink_from_is_exact, v6_target};
use crate::topology::plans::{v6_gateway, with_condition};
use crate::topology::types::{
    iface_from_is_first, BuildView, CoreError, CoreView, DeviceView, IfaceAttachment, IfaceView,
    NodeId,
};

verus! {

/// Whether place `k` of a device holds the interface of that name.
pub open spec fn sits_at(d: DeviceView, ifname: Seq<char>, k: int) -> bool {
    0 <= k < d.interfaces.len() && d.interfaces[k].ifname == ifname
}

/// Whether no interface of a device has that name.
pub open spec fn lacks(d: DeviceView, ifname: Seq<char>) -> bool {
    forall|j: int| 0 <= j < d.interfaces.len() ==> (#[trigger] d.interfaces[j]).ifname != ifname
}

proof fn found_where_it_sits(d: DeviceView, ifname: Seq<char>, k: int)
    requires
        d.wf(),
    ensures
        sits_at(d, ifname, k) ==> d.place(ifname) == Some(k),
        lacks(d, ifname) <==> d.place(ifname) is None,
{
    iface_from_is_first(d.interfaces, ifname, 0);
    if sits_at(d, ifname, k) {
        let p = d.place(ifname)->0;
        if p < k {
            assert(d.interfaces[p].ifname != d.interfaces[k].ifname);
        }
    }
}

/// Whether two states of a lab differ at most in one device.
pub open spec fn same_but_device(a: CoreView, b: CoreView, device: NodeId) -> bool {
    &&& a == (CoreView { devices: a.devices, ..b })
    &&& a.devices.dom() == b.devices.dom()
    &&& forall|id: NodeId| id != device && b.devices.contains_key(id) ==> #[trigger] a.devices[id]
        == b.devices[id]
}

/// Whether two devices differ at most in the interface at one place.
pub open spec fn same_but_iface(a: DeviceView, b: DeviceView, k: int) -> bool {
    &&& a == (DeviceView { interfaces: a.interfaces, ..b })
    &&& a.interfaces.len() == b.interfaces.len()
    &&& forall|j: int| 0 <= j < b.interfaces.len() && j != k ==> #[trigger] a.interfaces[j]
        == b.interfaces[j]
}

/// Once an interface was moved to a router, it is attached to that router's
/// downstream switch and has the addresses it was given there; it keeps its name,
/// its index and its conditions. No other interface, device, router or switch
/// changes. The move succeeds exactly where the router is there and has a
/// downstream switch, and the device is there.
pub proof fn replugged_interface_is_on_the_router(
    c: CoreView,
    device: NodeId,
    ifname: Seq<char>,
    to: NodeId,
    ip: Option<Ipv4Addr>,
    ip_v6: Option<Ipv6Addr>,
    k: int,
)
    requires
        c.devices.contains_key(device) ==> c.devices[device].wf(),
    ensures
        ({
            let (after, r) = c.replugged(device, ifname, to, ip, ip_v6);
            let old = c.devices[device].interfaces[k];
            let new = after.devices[device].interfaces[k];
            &&& r is Ok <==> c.routers.contains_key(to) && c.routers[to].downlink is Some
                && c.devices.contains_key(device)
            &&& r is Err ==> after == c
            &&& same_but_device(after, c, device)
            &&& r is Ok && sits_at(c.devices[device], ifname, k) ==> {
                &&& c.routers[to].downlink == Some(new.attachment->Routed_0)
                &&& new.attachment is Routed
                &&& after.routers[to].downlink == Some(new.attachment->Routed_0)
                &&& new.ip == ip
                &&& new.ip_v6 == ip_v6
                &&& new.ll_v6 is Some <==> ip_v6 is Some
                &&& ip_v6 is Some ==> new.ll_v6->0.bits
                    == 0xfe80_0000_0000_0000_0000_0000_0000_0000 + old.idx
                &&& new.ifname == ifname
                &&& new.idx == old.idx
                &&& new.egress == old.egress
                &&& new.ingress == old.ingress
                &&& new.start_down == old.start_down
                &&& same_but_iface(after.devices[device], c.devices[device], k)
            }
            &&& r is Ok && lacks(c.devices[device], ifname) ==> after == c
        }),
{
    if c.devices.contains_key(device) {
        found_where_it_sits(c.devices[device], ifname, k);
    }
    let (after, r) = c.replugged(device, ifname, to, ip, ip_v6);
    assert(after.devices.dom() =~= c.devices.dom());
}

/// An interface that was moved to a router, and carries the default route, sends
/// it to the gateway of that router's downstream switch.
pub proof fn replugged_interface_uses_the_new_gateway(
    c: CoreView,
    device: NodeId,
    ifname: Seq<char>,
    to: NodeId,
    ip: Option<Ipv4Addr>,
    ip_v6: Option<Ipv6Addr>,
    k: int,
    mode: Ipv6ProvisioningMode,
)
    requires
        c.devices.contains_key(device),
        c.devices[device].wf(),
        sits_at(c.devices[device], ifname, k),
        c.replugged(device, ifname, to, ip, ip_v6).1 is Ok,
        c.switches.contains_key(c.routers[to].downlink->0),
        c.switches[c.routers[to].downlink->0].gw is Some,
        c.switches[c.routers[to].downlink->0].owner_router == Some(to),
    ensures
        ({
            let after = c.replugged(device, ifname, to, ip, ip_v6).0;
            let s = c.switches[c.routers[to].downlink->0];
            &&& after.find_iface(device, ifname) is Ok
            &&& (after.find_iface(device, ifname)->Ok_0).0 == after.devices[device]
            &&& (after.find_iface(device, ifname)->Ok_0).1 == after.devices[device].interfaces[k]
            &&& (after.find_iface(device, ifname)->Ok_0).1.uplink() == c.routers[to].downlink
            &&& after.gateways(c.routers[to].downlink->0, mode) is Ok
            &&& after.gateways(c.routers[to].downlink->0, mode)->Ok_0.gw_ip == s.gw->0
            &&& device_build(
                after,
                after.devices[device],
                after.devices[device].interfaces[k],
                mode,
            ) is Ok
            &&& device_build(
                after,
                after.devices[device],
                after.devices[device].interfaces[k],
                mode,
            )->Ok_0.gw_ip == s.gw
            &&& device_build(
                after,
                after.devices[device],
                after.devices[device].interfaces[k],
                mode,
            )->Ok_0.gw_ns == c.routers[to].ns
        }),
{
    replugged_interface_is_on_the_router(c, device, ifname, to, ip, ip_v6, k);
    let after = c.replugged(device, ifname, to, ip, ip_v6).0;
    found_where_it_sits(c.devices[device], ifname, k);
    iface_from_is_first(after.devices[device].interfaces, ifname, 0);
    let d = c.devices[device];
    let e = after.devices[device];
    let p = e.place(ifname)->0;
    assert(e.interfaces[k].ifname == ifname);
    if p < k {
        assert(e.interfaces[p] == d.interfaces[p]);
        assert(d.interfaces[p].ifname != d.interfaces[k].ifname);
    }
}

/// Taking an address of a switch gives its next host, in the switch's own
/// subnet, and nothing where the switch has no subnet of that kind. Nothing but
/// the switch's counters changes.
pub proof fn addresses_come_from_the_switch(c: CoreView, sw: NodeId)
    requires
        c.switches.contains_key(sw),
        c.take_both(sw).1 is Ok,
    ensures
        ({
            let (after, r) = c.take_both(sw);
            let s = c.switches[sw];
            let ip = (r->Ok_0).0;
            let ip_v6 = (r->Ok_0).1;
            &&& ip is Some <==> s.cidr is Some
            &&& ip_v6 is Some <==> s.cidr_v6 is Some
            &&& ip is Some ==> ip->0.bits as int / 256 == s.cidr->0.addr.bits as int / 256
                && ip->0.bits as int % 256 == s.next_host && 0 < s.next_host < 255
            &&& ip_v6 is Some ==> ip_v6->0.bits as int / 0x1_0000
                == s.cidr_v6->0.addr.bits as int / 0x1_0000 && ip_v6->0.bits as int % 0x1_0000
                == s.next_host_v6 && s.next_host_v6 < 255
            &&& after.switches[sw].next_host == s.next_host + (if s.cidr is Some {
                1int
            } else {
                0
            })
            &&& after.switches[sw].next_host_v6 == s.next_host_v6 + (if s.cidr_v6 is Some {
                1int
            } else {
                0
            })
            &&& after == (CoreView { switches: after.switches, ..c })
            &&& after.switches.dom() == c.switches.dom()
            &&& forall|id: NodeId|
                id != sw && c.switches.contains_key(id) ==> #[trigger] after.switches[id]
                    == c.switches[id]
            &&& after.switches[sw].gw == s.gw
            &&& after.switches[sw].gw_v6 == s.gw_v6
            &&& after.switches[sw].cidr == s.cidr
            &&& after.switches[sw].cidr_v6 == s.cidr_v6
            &&& after.switches[sw].owner_router == s.owner_router
            &&& after.switches[sw].bridge == s.bridge
        }),
{
    let (after, r) = c.take_both(sw);
    let s = c.switches[sw];
    assert(after.switches.dom() =~= c.switches.dom());
    if s.cidr is Some {
        host_of_subnet(s.cidr->0.addr, s.next_host);
    }
    if s.cidr_v6 is Some {
        host_of_subnet_v6(s.cidr_v6->0.addr, s.next_host_v6);
    }
}

proof fn host_of_subnet(base: Ipv4Addr, h: u8)
    ensures
        base.host(h as int).bits as int / 256 == base.bits as int / 256,
        base.host(h as int).bits as int % 256 == h,
{
    let top = base.bits as int / 256;
    assert(top * 256 + h <= u32::MAX);
}

proof fn host_of_subnet_v6(base: Ipv6Addr, h: u8)
    ensures
        base.host(h as int).bits as int / 0x1_0000 == base.bits as int / 0x1_0000,
        base.host(h as int).bits as int % 0x1_0000 == h,
{
    let top = base.bits as int / 0x1_0000;
    assert(top * 0x1_0000 + h <= u128::MAX);
    vstd::arithmetic::div_mod::lemma_fundamental_div_mod_converse(
        top * 0x1_0000 + h,
        0x1_0000,
        top,
        h as int,
    );
}

/// An interface that was added to a device is its last one, under the name it was
/// added with, attached to the router's downstream switch, with the next addresses
/// of that switch. The first interface of a device carries its default route. No
/// other interface, device or router changes.
pub proof fn added_interface_is_on_the_router(
    c: CoreView,
    device: NodeId,
    ifname: Seq<char>,
    router: NodeId,
    egress: Option<LinkCondition>,
)
    requires
        c.devices.contains_key(device) ==> c.devices[device].wf(),
        c.next_id < u64::MAX,
    ensures
        ({
            let (after, r) = c.add_routed(device, ifname, router, egress);
            let sw = c.routers[router].downlink->0;
            let taken = c.take_both(sw).1;
            let d = c.devices[device];
            let e = after.devices[device];
            let n = d.interfaces.len() as int;
            let new = e.interfaces[n];
            &&& r is Ok <==> c.routers.contains_key(router) && c.routers[router].downlink is Some
                && taken is Ok && c.devices.contains_key(device) && lacks(d, ifname)
            &&& r is Ok ==> {
                &&& e.interfaces.len() == n + 1
                &&& forall|j: int| 0 <= j < n ==> #[trigger] e.interfaces[j] == d.interfaces[j]
                &&& new.ifname == ifname
                &&& new.attachment == IfaceAttachment::Routed(sw)
                &&& r->Ok_0 == (taken->Ok_0).0
                &&& new.ip == (taken->Ok_0).0
                &&& new.ip_v6 == (taken->Ok_0).1
                &&& new.ll_v6 is Some <==> new.ip_v6 is Some
                &&& new.ll_v6 is Some ==> new.ll_v6->0.bits
                    == 0xfe80_0000_0000_0000_0000_0000_0000_0000 + c.next_id
                &&& new.egress == egress
                &&& new.ingress is None
                &&& !new.start_down
                &&& new.prefix_len is None && new.prefix_len_v6 is None
                &&& new.idx == c.next_id
                &&& after.next_id == c.next_id + 1
                &&& e.default_via == (if n == 0 {
                    ifname
                } else {
                    d.default_via
                })
                &&& e.id == d.id && e.name == d.name && e.ns == d.ns && e.mtu == d.mtu
                    && e.provisioning_mode == d.provisioning_mode
                &&& after.devices.dom() == c.devices.dom()
                &&& forall|id: NodeId|
                    id != device && c.devices.contains_key(id) ==> #[trigger] after.devices[id]
                        == c.devices[id]
                &&& after.switches == c.take_both(sw).0.switches
                &&& after == (CoreView {
                    devices: after.devices,
                    switches: after.switches,
                    next_id: after.next_id,
                    ..c
                })
            }
            &&& c.routers.contains_key(router) && c.routers[router].downlink is Some && taken is Ok
                && !c.devices.contains_key(device) ==> r == Err::<Option<Ipv4Addr>, CoreError>(
                CoreError::UnknownDevice,
            )
            &&& c.routers.contains_key(router) && c.routers[router].downlink is Some && taken is Ok
                && c.devices.contains_key(device) && !lacks(d, ifname) ==> r == Err::<
                Option<Ipv4Addr>,
                CoreError,
            >(CoreError::DuplicateIface)
            &&& !(c.routers.contains_key(router) && c.routers[router].downlink is Some) ==> r
                == Err::<Option<Ipv4Addr>, CoreError>(CoreError::NoDownlink)
        }),
{
    if c.devices.contains_key(device) {
        found_where_it_sits(c.devices[device], ifname, 0);
    }
    let after = c.add_routed(device, ifname, router, egress).0;
    if c.add_routed(device, ifname, router, egress).1 is Ok {
        assert(after.devices.dom() =~= c.devices.dom());
    }
}

/// What a configuration sets of an interface that is added: addresses that are
/// given take the place of those from the switch, with their own prefix lengths; a
/// configuration without a gateway makes a dummy.
pub proof fn configured_interface_follows_its_configuration(
    c: CoreView,
    device: NodeId,
    ifname: Seq<char>,
    config: IfaceConfig,
)
    requires
        c.devices.contains_key(device),
        c.devices[device].wf(),
        c.next_id < u64::MAX,
    ensures
        ({
            let (after, r) = c.add_configured(device, ifname, config);
            let d = c.devices[device];
            let n = d.interfaces.len() as int;
            let new = after.devices[device].interfaces[n];
            &&& config.gateway is None ==> (r is Ok <==> lacks(d, ifname))
            &&& config.gateway is Some ==> (r is Ok <==> c.add_routed(
                device,
                ifname,
                config.gateway->0,
                config.egress,
            ).1 is Ok)
            &&& r is Ok ==> {
                &&& after.devices[device].interfaces.len() == n + 1
                &&& forall|j: int|
                    0 <= j < n ==> #[trigger] after.devices[device].interfaces[j]
                        == d.interfaces[j]
                &&& new.ifname == ifname
                &&& new.idx == c.next_id
                &&& new.egress == config.egress
                &&& new.start_down == config.start_down
                &&& config.gateway is Some ==> new.ingress == config.ingress
                &&& config.gateway is None ==> new.ingress is None
                &&& new.attachment == match config.gateway {
                    Some(router) => IfaceAttachment::Routed(c.routers[router].downlink->0),
                    None => IfaceAttachment::Dummy,
                }
                &&& config.addr is Some ==> new.ip == Some(config.addr->0.addr) && new.prefix_len
                    == Some(config.addr->0.prefix_len)
                &&& config.addr_v6 is Some ==> new.ip_v6 == Some(config.addr_v6->0.addr)
                    && new.prefix_len_v6 == Some(config.addr_v6->0.prefix_len)
                &&& config.addr is None ==> new.prefix_len is None
                &&& config.addr_v6 is None ==> new.prefix_len_v6 is None
                &&& config.addr is None && config.gateway is None ==> new.ip is None
                &&& config.addr_v6 is None && config.gateway is None ==> new.ip_v6 is None
                &&& config.addr is None && config.gateway is Some ==> new.ip == (c.take_both(
                    c.routers[config.gateway->0].downlink->0,
                ).1->Ok_0).0
                &&& config.addr_v6 is None && config.gateway is Some ==> new.ip_v6 == (c.take_both(
                    c.routers[config.gateway->0].downlink->0,
                ).1->Ok_0).1
                &&& after.devices[device].default_via == (if n == 0 {
                    ifname
                } else {
                    d.default_via
                })
                &&& forall|id: NodeId|
                    id != device && c.devices.contains_key(id) ==> #[trigger] after.devices[id]
                        == c.devices[id]
                &&& after.routers == c.routers
            }
        }),
{
    found_where_it_sits(c.devices[device], ifname, 0);
    if config.gateway is Some {
        added_interface_is_on_the_router(c, device, ifname, config.gateway->0, config.egress);
    }
}

/// A move that is being prepared takes the next addresses of the new router's
/// switch, and is wired to that router with the switch's gateway; the interface
/// itself is not touched yet.
pub proof fn prepared_move_leads_to_the_router(
    c: CoreView,
    device: NodeId,
    ifname: Seq<char>,
    to: NodeId,
    k: int,
)
    requires
        c.devices.contains_key(device),
        c.devices[device].wf(),
        sits_at(c.devices[device], ifname, k),
    ensures
        ({
            let (after, r) = c.prepared_replug(device, ifname, to);
            let sw = c.routers[to].downlink->0;
            let s = c.switches[sw];
            let i = c.devices[device].interfaces[k];
            let b = r->Ok_0;
            &&& r is Ok <==> c.routers.contains_key(to) && c.routers[to].downlink is Some
                && c.switches.contains_key(sw) && c.take_both(sw).1 is Ok
            &&& after.devices == c.devices
            &&& after.routers == c.routers
            &&& r is Ok ==> {
                &&& after == c.take_both(sw).0
                &&& b.gw_ip == s.gw
                &&& b.gw_ip_v6 == s.gw_v6
                &&& b.gw_ns == c.routers[to].ns
                &&& b.dev_ns == c.devices[device].ns
                &&& b.dev_ip == (c.take_both(sw).1->Ok_0).0
                &&& b.dev_ip_v6 == (c.take_both(sw).1->Ok_0).1
                &&& b.gw_br == (if s.bridge is Some {
                    s.bridge->0
                } else {
                    "br-lan"@
                })
                &&& b.prefix_len == (if s.cidr is Some {
                    s.cidr->0.prefix_len
                } else {
                    24
                })
                &&& b.prefix_len_v6 == (if s.cidr_v6 is Some {
                    s.cidr_v6->0.prefix_len
                } else {
                    64
                })
                &&& b.gw_ll_v6 == (if c.routers[to].cfg.ra_enabled
                    && c.routers[to].cfg.ra_lifetime_secs > 0 {
                    c.routers[to].downstream_ll_v6
                } else {
                    None
                })
                &&& b.dev_ll_v6 is Some <==> b.dev_ip_v6 is Some
                &&& b.dev_ll_v6 is Some ==> b.dev_ll_v6->0.bits as int
                    == 0xfe80_0000_0000_0000_0000_0000_0000_0000 + i.idx
                &&& b.ifname == ifname
                &&& b.is_default <==> c.devices[device].default_via == ifname
                &&& b.idx == i.idx
                &&& b.egress == i.egress
                &&& b.ingress is None
                &&& !b.dummy
                &&& !b.start_down
            }
        }),
{
    found_where_it_sits(c.devices[device], ifname, k);
}

/// An interface that is added at run time is wired to the router it was added
/// for, with the switch's gateway, and its name is free.
pub proof fn prepared_interface_leads_to_the_router(
    c: CoreView,
    device: NodeId,
    ifname: Seq<char>,
    router: NodeId,
    egress: Option<LinkCondition>,
)
    requires
        c.devices.contains_key(device),
        c.devices[device].wf(),
        c.next_id < u64::MAX,
        c.routers.contains_key(router),
        c.routers[router].downlink is Some,
        c.switches.contains_key(c.routers[router].downlink->0),
        c.switches[c.routers[router].downlink->0].owner_router == Some(router),
    ensures
        ({
            let (after, r) = c.prepared_add(device, ifname, router, egress);
            let sw = c.routers[router].downlink->0;
            let s = c.switches[sw];
            let b = r->Ok_0;
            &&& !lacks(c.devices[device], ifname) ==> r == Err::<BuildView, CoreError>(
                CoreError::DuplicateIface,
            ) && after == c
            &&& r is Ok <==> lacks(c.devices[device], ifname) && c.take_both(sw).1 is Ok
            &&& r is Ok ==> {
                &&& after == c.add_routed(device, ifname, router, egress).0
                &&& b.gw_ip == s.gw
                &&& b.gw_ip_v6 == s.gw_v6
                &&& b.gw_ns == c.routers[router].ns
                &&& b.dev_ns == c.devices[device].ns
                &&& b.dev_ip == (c.take_both(sw).1->Ok_0).0
                &&& b.dev_ip_v6 == (c.take_both(sw).1->Ok_0).1
                &&& b.ifname == ifname
                &&& b.idx == c.next_id
                &&& b.egress == egress && b.ingress is None
                &&& b.gw_br == (if s.bridge is Some {
                    s.bridge->0
                } else {
                    "br-lan"@
                })
                &&& b.prefix_len == (if s.cidr is Some {
                    s.cidr->0.prefix_len
                } else {
                    24
                })
                &&& b.prefix_len_v6 == (if s.cidr_v6 is Some {
                    s.cidr_v6->0.prefix_len
                } else {
                    64
                })
                &&& b.gw_ll_v6 == (if c.routers[router].cfg.ra_enabled
                    && c.routers[router].cfg.ra_lifetime_secs > 0 {
                    c.routers[router].downstream_ll_v6
                } else {
                    None
                })
                &&& b.dev_ll_v6 is Some <==> b.dev_ip_v6 is Some
                &&& b.dev_ll_v6 is Some ==> b.dev_ll_v6->0.bits as int
                    == 0xfe80_0000_0000_0000_0000_0000_0000_0000 + c.next_id
                &&& !b.is_default && !b.dummy && !b.start_down
            }
        }),
{
    found_where_it_sits(c.devices[device], ifname, 0);
    added_interface_is_on_the_router(c, device, ifname, router, egress);
    if c.take_both(c.routers[router].downlink->0).1 is Ok {
        addresses_come_from_the_switch(c, c.routers[router].downlink->0);
    }
}

/// Once the default route was sent through an interface, it goes there; only that
/// changes. It works exactly for interfaces that are there.
pub proof fn default_route_goes_through(
    c: CoreView,
    device: NodeId,
    ifname: Seq<char>,
)
    requires
        c.devices.contains_key(device) ==> c.devices[device].wf(),
    ensures
        ({
            let (after, r) = c.routed_through(device, ifname);
            &&& r is Ok <==> c.devices.contains_key(device) && !lacks(c.devices[device], ifname)
            &&& r is Err ==> after == c
            &&& !c.devices.contains_key(device) ==> r == Err::<(), CoreError>(
                CoreError::UnknownDevice,
            )
            &&& c.devices.contains_key(device) && lacks(c.devices[device], ifname) ==> r == Err::<
                (),
                CoreError,
            >(CoreError::NoSuchIface)
            &&& same_but_device(after, c, device)
            &&& r is Ok ==> {
                &&& after.devices[device].default_via == ifname
                &&& after.devices[device] == (DeviceView {
                    default_via: after.devices[device].default_via,
                    ..c.devices[device]
                })
            }
        }),
{
    if c.devices.contains_key(device) {
        found_where_it_sits(c.devices[device], ifname, 0);
    }
    assert(c.routed_through(device, ifname).0.devices.dom() =~= c.devices.dom());
}

/// Taking out an interface leaves the others in their order; the default route
/// moves only where it went through the one taken out, to the first one left.
pub proof fn removed_interface_is_gone(d: DeviceView, k: int)
    requires
        d.wf(),
        0 <= k < d.interfaces.len(),
        d.interfaces.len() > 1,
    ensures
        d.minus(k).interfaces.len() == d.interfaces.len() - 1,
        forall|j: int| 0 <= j < k ==> #[trigger] d.minus(k).interfaces[j] == d.interfaces[j],
        forall|j: int|
            k <= j < d.interfaces.len() - 1 ==> #[trigger] d.minus(k).interfaces[j]
                == d.interfaces[j + 1],
        lacks(d.minus(k), d.interfaces[k].ifname),
        d.default_via != d.interfaces[k].ifname ==> d.minus(k).default_via == d.default_via,
        d.default_via == d.interfaces[k].ifname ==> d.minus(k).default_via == d.interfaces[if k
            == 0 {
            1
        } else {
            0
        }].ifname,
        d.minus(k) == (DeviceView {
            interfaces: d.minus(k).interfaces,
            default_via: d.minus(k).default_via,
            ..d
        }),
{
    let e = d.minus(k);
    assert forall|j: int| 0 <= j < e.interfaces.len() implies (#[trigger] e.interfaces[j]).ifname
        != d.interfaces[k].ifname by {
        if j < k {
            assert(e.interfaces[j] == d.interfaces[j]);
            assert(d.interfaces[j].ifname != d.interfaces[k].ifname);
        } else {
            assert(e.interfaces[j] == d.interfaces[j + 1]);
            assert(d.interfaces[k].ifname != d.interfaces[j + 1].ifname);
        }
    }
}

/// A renewed interface has the next address of its switch; the call tells the old
/// one, the new one and the length of the switch's prefix. Nothing else of the
/// device changes. It needs a routed interface that has an address.
pub proof fn renewed_interface_has_the_next_address(
    c: CoreView,
    device: NodeId,
    ifname: Seq<char>,
    k: int,
)
    requires
        c.devices.contains_key(device),
        c.devices[device].wf(),
        sits_at(c.devices[device], ifname, k),
    ensures
        ({
            let (after, r) = c.renewed(device, ifname);
            let i = c.devices[device].interfaces[k];
            let sw = i.attachment->Routed_0;
            let s = c.switches[sw];
            let new = after.devices[device].interfaces[k];
            &&& r is Ok <==> i.ip is Some && i.attachment is Routed && c.switches.contains_key(sw)
                && s.cidr is Some && 0 < s.next_host < 255
            &&& i.ip is None ==> r->Err_0 == CoreError::NoIpv4
            &&& i.ip is Some && i.attachment is Dummy ==> r->Err_0 == CoreError::DummyIface
            &&& after.routers == c.routers
            &&& r is Err ==> after == c
            &&& r is Ok ==> {
                &&& (r->Ok_0).0 == c.devices[device].ns
                &&& Some((r->Ok_0).1) == i.ip
                &&& new.ip == Some((r->Ok_0).2)
                &&& (r->Ok_0).2.bits as int / 256 == s.cidr->0.addr.bits as int / 256
                &&& (r->Ok_0).2.bits as int % 256 == s.next_host
                &&& (r->Ok_0).3 == s.cidr->0.prefix_len
                &&& after.switches[sw].next_host == s.next_host + 1
                &&& new == (IfaceView { ip: new.ip, ..i })
                &&& same_but_iface(after.devices[device], c.devices[device], k)
                &&& forall|id: NodeId|
                    id != device && c.devices.contains_key(id) ==> #[trigger] after.devices[id]
                        == c.devices[id]
            }
        }),
{
    found_where_it_sits(c.devices[device], ifname, k);
    let i = c.devices[device].interfaces[k];
    if i.attachment is Routed {
        let s = c.switches[i.attachment->Routed_0];
        if s.cidr is Some {
            host_of_subnet(s.cidr->0.addr, s.next_host);
        }
    }
}

/// Which way a link condition goes: egress, ingress or, on an interface with
/// another end, both. The other direction keeps what it has.
pub proof fn conditions_go_their_way(
    i: IfaceView,
    condition: Option<LinkCondition>,
    direction: LinkDirection,
    routed: bool,
)
    ensures
        ({
            let j = with_condition(i, condition, direction, routed);
            &&& direction == LinkDirection::Egress ==> j.egress == condition && j.ingress
                == i.ingress
            &&& direction == LinkDirection::Ingress ==> j.ingress == condition && j.egress
                == i.egress
            &&& direction == LinkDirection::Both ==> j.egress == condition
            &&& direction == LinkDirection::Both && routed ==> j.ingress == condition
            &&& direction == LinkDirection::Both && !routed ==> j.ingress == i.ingress
            &&& j == (IfaceView { egress: j.egress, ingress: j.ingress, ..i })
        }),
{
}

/// A condition that was stored is on the interface it was stored for, and on no
/// other.
pub proof fn stored_condition_is_on_the_interface(
    c: CoreView,
    device: NodeId,
    ifname: Seq<char>,
    f: spec_fn(IfaceView) -> IfaceView,
    k: int,
)
    requires
        c.devices.contains_key(device),
        c.devices[device].wf(),
    ensures
        ({
            let after = c.changed_iface(device, ifname, f);
            &&& same_but_device(after, c, device)
            &&& sits_at(c.devices[device], ifname, k) ==> after.devices[device].interfaces[k] == f(
                c.devices[device].interfaces[k],
            ) && same_but_iface(after.devices[device], c.devices[device], k)
            &&& lacks(c.devices[device], ifname) ==> after == c
        }),
{
    found_where_it_sits(c.devices[device], ifname, k);
    assert(c.changed_iface(device, ifname, f).devices.dom() =~= c.devices.dom());
}

/// Which gateway an IPv6 default route takes. Driven by advertisements: none where
/// the router does not advertise, else its link-local address if it has one, else
/// its global one. Static: the global address if there is one, else the
/// link-local one.
pub proof fn v6_gateways_are_picked(
    mode: Ipv6ProvisioningMode,
    advertised: bool,
    global: Option<Ipv6Addr>,
    local: Option<Ipv6Addr>,
)
    ensures
        mode == Ipv6ProvisioningMode::RaDriven && !advertised ==> v6_gateway(
            mode,
            advertised,
            global,
            local,
        ) is None,
        mode == Ipv6ProvisioningMode::RaDriven && advertised && local is Some ==> v6_gateway(
            mode,
            advertised,
            global,
            local,
        ) == local,
        mode == Ipv6ProvisioningMode::RaDriven && advertised && local is None ==> v6_gateway(
            mode,
            advertised,
            global,
            local,
        ) == global,
        mode != Ipv6ProvisioningMode::RaDriven && global is Some ==> v6_gateway(
            mode,
            advertised,
            global,
            local,
        ) == global,
        mode != Ipv6ProvisioningMode::RaDriven && global is None ==> v6_gateway(
            mode,
            advertised,
            global,
            local,
        ) == local,
{
}

/// The routes behind a switch: its own gateway for IPv4, and for IPv6 what is
/// picked among its gateway and its router's link-local address. A router is
/// solicited where provisioning is driven by advertisements, and answers where it
/// advertises. Without a gateway, or without a router, there are no routes.
pub proof fn routes_follow_the_switch(c: CoreView, sw: NodeId, mode: Ipv6ProvisioningMode)
    ensures
        ({
            let r = c.gateways(sw, mode);
            let s = c.switches[sw];
            let x = c.routers[s.owner_router->0];
            let advertised = x.cfg.ra_enabled && x.cfg.ra_lifetime_secs > 0;
            &&& r is Ok <==> c.switches.contains_key(sw) && s.gw is Some && s.owner_router is Some
                && c.routers.contains_key(s.owner_router->0)
            &&& !c.switches.contains_key(sw) || s.gw is None ==> r->Err_0 == CoreError::NoGateway
            &&& c.switches.contains_key(sw) && s.gw is Some && r is Err ==> r->Err_0
                == CoreError::NoOwner
            &&& r is Ok ==> {
                &&& s.gw == Some(r->Ok_0.gw_ip)
                &&& r->Ok_0.primary_v6 == v6_gateway(
                    mode,
                    advertised,
                    s.gw_v6,
                    x.downstream_ll_v6,
                )
                &&& r->Ok_0.solicit <==> mode == Ipv6ProvisioningMode::RaDriven
                &&& r->Ok_0.rs_router_ll == (if mode == Ipv6ProvisioningMode::RaDriven
                    && advertised {
                    x.downstream_ll_v6
                } else {
                    None
                })
            }
        }),
{
}

/// A device is wired interface by interface, each with the namespace of the router
/// behind its switch and the switch's gateway; a dummy has neither.
pub proof fn devices_are_wired_to_their_switches(
    c: CoreView,
    d: DeviceView,
    mode: Ipv6ProvisioningMode,
    n: int,
    k: int,
)
    requires
        0 <= k < n <= d.interfaces.len(),
        device_builds(c, d, mode, n) is Ok,
    ensures
        ({
            let bs = device_builds(c, d, mode, n)->Ok_0;
            let i = d.interfaces[k];
            let s = c.switches[i.attachment->Routed_0];
            let x = c.routers[s.owner_router->0];
            let b = bs[k];
            &&& bs.len() == n
            &&& b.dev_ns == d.ns
            &&& b.ifname == i.ifname
            &&& b.dev_ip == i.ip
            &&& b.dev_ip_v6 == i.ip_v6
            &&& b.egress == i.egress
            &&& b.start_down == i.start_down
            &&& b.idx == i.idx
            &&& b.is_default <==> d.default_via == i.ifname
            &&& b.dummy <==> i.attachment is Dummy
            &&& i.prefix_len is Some ==> b.prefix_len == i.prefix_len->0
            &&& i.prefix_len_v6 is Some ==> b.prefix_len_v6 == i.prefix_len_v6->0
            &&& b.dummy ==> b.gw_ip is None && b.gw_ip_v6 is None && b.gw_ll_v6 is None
                && b.dev_ll_v6 is None && b.ingress is None && b.gw_ns == ""@ && b.gw_br == ""@ && (
            i.prefix_len is None ==> b.prefix_len == 24) && (i.prefix_len_v6 is None
                ==> b.prefix_len_v6 == 64)
            &&& !b.dummy ==> {
                &&& c.switches.contains_key(i.attachment->Routed_0)
                &&& s.owner_router is Some
                &&& b.gw_ns == x.ns
                &&& b.gw_ip == s.gw
                &&& b.ingress == i.ingress
                &&& b.dev_ll_v6 == i.ll_v6
                &&& b.gw_br == (if s.bridge is Some {
                    s.bridge->0
                } else {
                    "br-lan"@
                })
                &&& i.prefix_len is None ==> b.prefix_len == (if s.cidr is Some {
                    s.cidr->0.prefix_len
                } else {
                    24
                })
                &&& i.prefix_len_v6 is None ==> b.prefix_len_v6 == (if s.cidr_v6 is Some {
                    s.cidr_v6->0.prefix_len
                } else {
                    64
                })
                &&& mode == Ipv6ProvisioningMode::RaDriven ==> b.gw_ip_v6 is None && b.gw_ll_v6
                    == (if x.cfg.ra_enabled && x.cfg.ra_lifetime_secs > 0 {
                    x.downstream_ll_v6
                } else {
                    None
                })
                &&& mode != Ipv6ProvisioningMode::RaDriven ==> b.gw_ip_v6 == s.gw_v6 && b.gw_ll_v6
                    == x.downstream_ll_v6
            }
        }),
    decreases n,
{
    if k < n - 1 {
        devices_are_wired_to_their_switches(c, d, mode, n - 1, k);
        wired_so_far(c, d, mode, n - 1);
    } else {
        wired_so_far(c, d, mode, n - 1);
    }
}

proof fn wired_so_far(c: CoreView, d: DeviceView, mode: Ipv6ProvisioningMode, n: int)
    requires
        0 <= n,
        device_builds(c, d, mode, n) is Ok,
    ensures
        device_builds(c, d, mode, n)->Ok_0.len() == n,
    decreases n,
{
    if n > 0 {
        wired_so_far(c, d, mode, n - 1);
    }
}

/// The link between a device and a router is found at the device, on its first
/// interface that is attached to the router's downstream switch, in whichever
/// order the two are named.
pub proof fn device_links_are_found(c: CoreView, a: NodeId, b: NodeId, k: int)
    requires
        c.devices.contains_key(a),
        c.routers.contains_key(b),
        !c.devices.contains_key(b),
        !c.routers.contains_key(a),
    ensures
        ({
            let d = c.devices[a];
            let attached = |j: int|
                d.interfaces[j].attachment == IfaceAttachment::Routed(c.routers[b].downlink->0);
            &&& c.link_target(a, b) == c.link_target(b, a)
            &&& c.routers[b].downlink is None ==> c.link_target(a, b)->Err_0
                == CoreError::NoDownlink && c.link_target(a, b) is Err
            &&& c.routers[b].downlink is Some && 0 <= k < d.interfaces.len() && attached(k) && (
            forall|j: int| 0 <= j < k ==> !#[trigger] attached(j)) ==> c.link_target(a, b) == Ok::<
                (Seq<char>, Seq<char>),
                CoreError,
            >((d.ns, d.interfaces[k].ifname))
            &&& c.routers[b].downlink is Some && (forall|j: int|
                0 <= j < d.interfaces.len() ==> !#[trigger] attached(j)) ==> c.link_target(a, b)
                == Err::<(Seq<char>, Seq<char>), CoreError>(CoreError::NotConnected)
        }),
{
    let d = c.devices[a];
    let attached = |j: int|
        d.interfaces[j].attachment == IfaceAttachment::Routed(c.routers[b].downlink->0);
    if c.routers[b].downlink is Some {
        let sw = c.routers[b].downlink->0;
        uplink_from_is_exact(d.interfaces, sw, 0);
        let found = uplink_from(d.interfaces, sw, 0);
        if found is Some {
            first_uplink(d.interfaces, sw, 0);
            assert(attached(found->0));
            if 0 <= k < d.interfaces.len() && attached(k) && (forall|j: int|
                0 <= j < k ==> !#[trigger] attached(j)) {
                assert(d.interfaces[k].uplink() == Some(sw));
            }
        } else if 0 <= k < d.interfaces.len() && attached(k) {
            assert(d.interfaces[k].uplink() == Some(sw));
        }
    }
}

proof fn first_uplink(ifs: Seq<IfaceView>, sw: NodeId, i: int)
    requires
        0 <= i,
        uplink_from(ifs, sw, i) is Some,
    ensures
        forall|j: int|
            i <= j < uplink_from(ifs, sw, i)->0 ==> (#[trigger] ifs[j]).uplink() != Some(sw),
    decreases ifs.len() - i,
{
    if i < ifs.len() && ifs[i].uplink() != Some(sw) {
        first_uplink(ifs, sw, i + 1);
    }
}

/// The link between two routers is found at the lower one, on its WAN interface:
/// `ix` where its uplink is the exchange, `wan` otherwise.
pub proof fn router_links_are_found(c: CoreView, upper: NodeId, lower: NodeId)
    requires
        c.routers.contains_key(upper),
        c.routers.contains_key(lower),
        !c.devices.contains_key(upper),
        !c.devices.contains_key(lower),
        c.routers[upper].downlink is Some,
        c.routers[lower].uplink == c.routers[upper].downlink,
    ensures
        c.link_target(upper, lower) == Ok::<(Seq<char>, Seq<char>), CoreError>(
            (
                c.routers[lower].ns,
                if c.routers[lower].uplink == Some(c.ix_sw) {
                    "ix"@
                } else {
                    "wan"@
                },
            ),
        ),
        !(c.routers[lower].downlink is Some && c.routers[upper].uplink
            == c.routers[lower].downlink) ==> c.link_target(lower, upper) == c.link_target(
            upper,
            lower,
        ),
{
}

/// A device's default route follows a router's advertisements exactly where the
/// device is provisioned by them, by its own setting or else the lab's, and its
/// default interface is attached to the router's switch and has an IPv6 address.
pub proof fn advertisements_reach_their_devices(
    d: DeviceView,
    sw: NodeId,
    lab_mode: Ipv6ProvisioningMode,
    k: int,
)
    requires
        d.wf(),
        sits_at(d, d.default_via, k),
    ensures
        ({
            let mode = if d.provisioning_mode is Some {
                d.provisioning_mode->0
            } else {
                lab_mode
            };
            let i = d.interfaces[k];
            v6_target(d, sw, lab_mode) == (if mode == Ipv6ProvisioningMode::RaDriven && i.attachment
                == IfaceAttachment::Routed(sw) && i.ip_v6 is Some {
                Some((d.ns, i.ifname))
            } else {
                None
            })
        }),
{
    found_where_it_sits(d, d.default_via, k);
}

} // verus!
