//! What every change of the topology keeps.
use vstd::prelude::*;

use crate::addr::{pow2, Ipv4Addr, Ipv4Net, Ipv6Addr};
use crate::iface::IfaceConfig;
use crate::nat_config::{IpSupport, NatV6Mode};
use crate::profile::LinkDirection;
use crate::qdisc::LinkCondition;
use crate::text::{dec, dec_reads_back};
use crate::topology::ifaces::{dummy_iface, routed_iface};
use crate::topology::nodes::{fresh_switch, node_ns};
use crate::topology::plans::with_condition;
use crate::topology::pools::{net4, subnet_host};
use crate::topology::regions::region_net;
use crate::topology::types::{
    iface_from_is_first, CoreView, DeviceView, DownstreamPool, IfaceView, NodeId,
};

verus! {

// ── identifiers ──────────────────────────────────────────────────────

/// A new node gets an identifier that no node has.
pub proof fn next_id_is_unused(c: CoreView)
    requires
        c.wf(),
    ensures
        !c.devices.contains_key(NodeId(c.next_id)),
        !c.routers.contains_key(NodeId(c.next_id)),
        !c.switches.contains_key(NodeId(c.next_id)),
{
}

/// Numbers with the same text are the same.
proof fn dec_is_injective(a: nat, b: nat)
    requires
        dec(a) == dec(b),
    ensures
        a == b,
{
    dec_reads_back(a);
    dec_reads_back(b);
}

/// The nodes of a lab have different namespaces: those of two routers or two
/// devices differ by their identifiers, and no router has one like a device's.
pub proof fn namespaces_differ(lab: u64, a: u64, b: u64)
    ensures
        a != b ==> node_ns(lab, "-r"@, a) != node_ns(lab, "-r"@, b),
        a != b ==> node_ns(lab, "-d"@, a) != node_ns(lab, "-d"@, b),
        node_ns(lab, "-r"@, a) != node_ns(lab, "-d"@, b),
{
    reveal_strlit("-r");
    reveal_strlit("-d");
    let head = "lab"@ + dec(lab as nat);
    assert forall|tag: Seq<char>| tag.len() == 2 && a != b implies #[trigger] node_ns(lab, tag, a)
        != node_ns(lab, tag, b) by {
        let x = node_ns(lab, tag, a);
        let y = node_ns(lab, tag, b);
        if x == y {
            assert(x.skip(head.len() as int + 2) =~= dec(a as nat));
            assert(y.skip(head.len() as int + 2) =~= dec(b as nat));
            dec_is_injective(a as nat, b as nat);
        }
    }
    assert(node_ns(lab, "-r"@, a)[head.len() as int + 1] == 'r');
    assert(node_ns(lab, "-d"@, b)[head.len() as int + 1] == 'd');
}

// ── interfaces ───────────────────────────────────────────────────────

/// Whether a device has an interface at a place.
pub open spec fn iface_at(devices: Map<NodeId, DeviceView>, d: NodeId, i: int) -> bool {
    devices.contains_key(d) && 0 <= i < devices[d].interfaces.len()
}

/// Whether the numbers of all interfaces of a lab differ, and are below the
/// next identifier. The far end of a veth pair is named by that number.
pub open spec fn indices_differ(devices: Map<NodeId, DeviceView>, next: u64) -> bool {
    &&& forall|d: NodeId, i: int| #[trigger]
        iface_at(devices, d, i) ==> devices[d].interfaces[i].idx < next
    &&& forall|d: NodeId, i: int, e: NodeId, j: int| #[trigger]
        iface_at(devices, d, i) && #[trigger] iface_at(devices, e, j) && (d != e || i != j)
            ==> devices[d].interfaces[i].idx != devices[e].interfaces[j].idx
}

/// Whether no dummy interface has an impairment on the side that it lacks.
pub open spec fn dummies_ok(devices: Map<NodeId, DeviceView>) -> bool {
    forall|d: NodeId, i: int| #[trigger]
        iface_at(devices, d, i) && devices[d].interfaces[i].attachment is Dummy
            ==> devices[d].interfaces[i].ingress is None
}

/// Whether the interfaces of a lab are told apart by their numbers and dummies
/// have one side only.
pub open spec fn ifaces_ok(c: CoreView) -> bool {
    indices_differ(c.devices, c.next_id) && dummies_ok(c.devices)
}

proof fn plus_keeps_ifaces_ok(c: CoreView, device: NodeId, iface: IfaceView)
    requires
        ifaces_ok(c),
        c.next_id < u64::MAX,
        iface.idx == c.next_id,
        iface.attachment is Dummy ==> iface.ingress is None,
    ensures
        ifaces_ok(c.took_id().push_iface(device, iface).0),
{
    let a = c.took_id().push_iface(device, iface).0;
    if c.devices.contains_key(device) && c.devices[device].place(iface.ifname) is None {
        let d = c.devices[device];
        let n = d.interfaces.len() as int;
        assert(a.devices[device].interfaces =~= d.interfaces.push(iface));
        assert forall|x: NodeId, i: int| #[trigger] iface_at(a.devices, x, i) implies (x == device
            && i == n) || (iface_at(c.devices, x, i) && a.devices[x].interfaces[i]
            == c.devices[x].interfaces[i]) by {
            if x != device {
                assert(c.devices.contains_key(x));
            }
        }
    } else {
        assert forall|x: NodeId, i: int| #[trigger] iface_at(a.devices, x, i) implies iface_at(
            c.devices,
            x,
            i,
        ) by {}
    }
}

proof fn taking_addresses_keeps_devices(c: CoreView, sw: NodeId)
    ensures
        c.take_both(sw).0.devices == c.devices,
        c.take_both(sw).0.next_id == c.next_id,
{
}

/// An interface that is added gets a number of its own.
pub proof fn adding_keeps_ifaces_ok(
    c: CoreView,
    device: NodeId,
    ifname: Seq<char>,
    router: NodeId,
    egress: Option<LinkCondition>,
)
    requires
        ifaces_ok(c),
        c.next_id < u64::MAX,
    ensures
        ifaces_ok(c.add_routed(device, ifname, router, egress).0),
{
    if c.routers.contains_key(router) && c.routers[router].downlink is Some {
        let sw = c.routers[router].downlink->0;
        let (t, taken) = c.take_both(sw);
        taking_addresses_keeps_devices(c, sw);
        if taken is Ok {
            let (ip, ip_v6) = taken->Ok_0;
            plus_keeps_ifaces_ok(
                t,
                device,
                routed_iface(ifname, sw, ip, ip_v6, egress, t.next_id),
            );
        }
    }
}

/// A dummy interface that is added gets a number of its own and has no
/// impairment on the side that it lacks.
pub proof fn adding_dummies_keeps_ifaces_ok(
    c: CoreView,
    device: NodeId,
    ifname: Seq<char>,
    config: IfaceConfig,
)
    requires
        ifaces_ok(c),
        c.next_id < u64::MAX,
        config.gateway is None,
    ensures
        ifaces_ok(c.add_configured(device, ifname, config).0),
{
    plus_keeps_ifaces_ok(c, device, dummy_iface(ifname, config, c.next_id));
}

/// A change of an interface that keeps its number keeps the interfaces apart.
proof fn change_keeps_ifaces_ok(c: CoreView, device: NodeId, k: int, iface: IfaceView)
    requires
        ifaces_ok(c),
        iface_at(c.devices, device, k),
        iface.idx == c.devices[device].interfaces[k].idx,
        iface.attachment is Dummy ==> iface.ingress is None,
    ensures
        ifaces_ok(c.with_device(device, c.devices[device].with_iface(k, iface))),
{
    let a = c.with_device(device, c.devices[device].with_iface(k, iface));
    assert forall|x: NodeId, i: int| #[trigger] iface_at(a.devices, x, i) implies iface_at(
        c.devices,
        x,
        i,
    ) && a.devices[x].interfaces[i].idx == c.devices[x].interfaces[i].idx && ((x == device && i
        == k) || a.devices[x].interfaces[i] == c.devices[x].interfaces[i]) by {}
}

/// Setting a condition keeps the numbers, and a dummy gets none on the side
/// that it lacks.
pub proof fn conditions_keep_ifaces_ok(
    c: CoreView,
    device: NodeId,
    ifname: Seq<char>,
    condition: Option<LinkCondition>,
    direction: LinkDirection,
)
    requires
        c.wf(),
        ifaces_ok(c),
        c.find_iface(device, ifname) is Ok,
        (c.find_iface(device, ifname)->Ok_0).1.attachment is Dummy ==> !(direction is Ingress),
    ensures
        ifaces_ok(
            c.changed_iface(
                device,
                ifname,
                |i: IfaceView|
                    with_condition(
                        i,
                        condition,
                        direction,
                        !((c.find_iface(device, ifname)->Ok_0).1.attachment is Dummy),
                    ),
            ),
        ),
{
    let d = c.devices[device];
    iface_from_is_first(d.interfaces, ifname, 0);
    let k = d.place(ifname)->0;
    let routed = !(d.interfaces[k].attachment is Dummy);
    assert(iface_at(c.devices, device, k));
    assert(d.iface(ifname) == Some(d.interfaces[k]));
    change_keeps_ifaces_ok(
        c,
        device,
        k,
        with_condition(d.interfaces[k], condition, direction, routed),
    );
}

/// Removing an interface keeps the others apart.
pub proof fn removing_keeps_ifaces_ok(c: CoreView, device: NodeId, k: int)
    requires
        ifaces_ok(c),
        iface_at(c.devices, device, k),
    ensures
        ifaces_ok(c.with_device(device, c.devices[device].minus(k))),
{
    let d = c.devices[device];
    let a = c.with_device(device, d.minus(k));
    let was = |x: NodeId, i: int|
        if x == device && i >= k {
            i + 1
        } else {
            i
        };
    assert(a.devices[device].interfaces =~= d.interfaces.remove(k));
    assert forall|x: NodeId, i: int| #[trigger] iface_at(a.devices, x, i) implies iface_at(
        c.devices,
        x,
        was(x, i),
    ) && a.devices[x].interfaces[i] == c.devices[x].interfaces[was(x, i)] by {}
}

/// A lab without devices has its interfaces told apart.
pub proof fn empty_lab_is_ok(c: CoreView)
    requires
        c.devices == Map::<NodeId, DeviceView>::empty(),
    ensures
        ifaces_ok(c),
{
}

// ── regions ──────────────────────────────────────────────────────────

/// Connecting a router to its downstream switch takes no router away.
proof fn downlinking_keeps_routers(c: CoreView, router: NodeId, sw: NodeId, wish: Option<Ipv4Net>)
    ensures
        c.downlinked(router, sw, wish).0.routers.dom() == c.routers.dom(),
        c.downlinked(router, sw, wish).0.regions == c.regions,
        c.downlinked(router, sw, wish).0.next_id == c.next_id,
{
    let after = c.downlinked(router, sw, wish).0;
    if c.routers.contains_key(router) {
        assert(after.routers.dom() =~= c.routers.dom());
    }
}

/// Every region has its router once a region was added, and once two were
/// linked.
pub proof fn regions_stay_backed(c: CoreView, a: Seq<char>, b: Seq<char>)
    requires
        c.wf(),
        c.regions_backed(),
        c.next_id < u64::MAX - 1,
    ensures
        c.region_added(a).0.regions_backed(),
        c.linked(a, b).0.regions_backed(),
{
    let after = c.region_added(a).0;
    let (c1, idx) = c.alloc_region();
    assert forall|n: Seq<char>| #[trigger] c.linked(a, b).0.region_backed(n) by {
        assert(c.region_backed(n));
    }
    if idx is Ok {
        let router = "region_"@ + a;
        let id = NodeId(c1.next_id);
        let c2 = c1.added_router(
            router,
            None,
            DownstreamPool::Public,
            None,
            IpSupport::DualStack,
            NatV6Mode::Off,
        );
        let sw = NodeId(c2.next_id);
        let c3 = c2.added_switch(
            router + "-sub"@,
            fresh_switch(router + "-sub"@, None, None, None, None),
        );
        let cidr = Ipv4Net { addr: region_net(idx->Ok_0), prefix_len: 24 };
        downlinking_keeps_routers(c3, id, sw, Some(cidr));
        assert(c2.routers.contains_key(id));
    }
    assert forall|n: Seq<char>| #[trigger] after.region_backed(n) by {
        assert(c.region_backed(n));
    }
}

// ── addresses ────────────────────────────────────────────────────────

proof fn pow2_splits(a: int, b: int)
    requires
        0 <= a,
        0 <= b,
    ensures
        pow2(a + b) == pow2(a) * pow2(b),
        pow2(b) > 0,
    decreases b,
{
    if b > 0 {
        pow2_splits(a, b - 1);
        assert(pow2(a) * (2 * pow2(b - 1)) == 2 * (pow2(a) * pow2(b - 1))) by (nonlinear_arith);
    }
}

/// The hosts of a subnet that leaves them a whole octet lie in it.
pub proof fn hosts_lie_in_their_subnet(cidr: Ipv4Net, host: u8)
    requires
        cidr.prefix_len <= 24,
        subnet_host(cidr, host) is Ok,
    ensures
        cidr.holds(subnet_host(cidr, host)->Ok_0),
{
    let x = cidr.addr.bits as int;
    let y = (x / 256) * 256 + host as int;
    let rest = 24 - cidr.prefix_len;
    assert(y <= u32::MAX);
    assert(pow2(8) == 256) by {
        reveal_with_fuel(pow2, 9);
    }
    pow2_splits(rest, 8);
    pow2_splits(0, rest);
    let m = pow2(rest);
    assert(pow2(32 - cidr.prefix_len) == 256 * m) by (nonlinear_arith)
        requires
            pow2(rest + 8) == m * 256,
            32 - cidr.prefix_len == rest + 8,
    ;
    vstd::arithmetic::div_mod::lemma_div_denominator(x, 256, m);
    vstd::arithmetic::div_mod::lemma_div_denominator(y, 256, m);
    assert(y / 256 == x / 256);
}

/// Two hosts of a subnet have different addresses.
pub proof fn hosts_differ(cidr: Ipv4Net, a: u8, b: u8)
    requires
        a != b,
        subnet_host(cidr, a) is Ok,
        subnet_host(cidr, b) is Ok,
    ensures
        subnet_host(cidr, a) != subnet_host(cidr, b),
{
    assert(cidr.addr.host(a as int).bits != cidr.addr.host(b as int).bits);
}

/// A switch never hands out a host twice: the number of the next one grows.
pub proof fn handing_out_moves_on(c: CoreView, sw: NodeId)
    requires
        c.alloc_host(sw).1 is Ok,
    ensures
        c.alloc_host(sw).1 == subnet_host(c.switches[sw].cidr->0, c.switches[sw].next_host),
        c.alloc_host(sw).0.switches[sw].next_host == c.switches[sw].next_host + 1,
        c.alloc_host(sw).0.switches[sw].cidr == c.switches[sw].cidr,
{
}

// ── subnets ──────────────────────────────────────────────────────────

/// Handing out a private subnet moves on to the next, and the subnets handed
/// out at two times differ while fewer than 256 lie between them.
pub proof fn private_subnets_differ(c: CoreView, d: CoreView)
    requires
        c.cfg.private_cidr == d.cfg.private_cidr,
        c.next_private_subnet < d.next_private_subnet < c.next_private_subnet + 256,
        c.alloc_private().1 is Ok,
        d.alloc_private().1 is Ok,
    ensures
        c.alloc_private().0.next_private_subnet == c.next_private_subnet + 1,
        c.alloc_private().1 != d.alloc_private().1,
{
    blocks_differ(c.cfg.private_cidr.addr, c.next_private_subnet, d.next_private_subnet);
}

/// Handing out a public subnet moves on to the next, and the subnets handed out
/// at two times differ while fewer than 256 lie between them.
pub proof fn public_subnets_differ(c: CoreView, d: CoreView)
    requires
        c.cfg.public_cidr == d.cfg.public_cidr,
        c.next_public_subnet < d.next_public_subnet < c.next_public_subnet + 256,
        c.alloc_public().1 is Ok,
        d.alloc_public().1 is Ok,
    ensures
        c.alloc_public().0.next_public_subnet == c.next_public_subnet + 1,
        c.alloc_public().1 != d.alloc_public().1,
{
    blocks_differ(c.cfg.public_cidr.addr, c.next_public_subnet, d.next_public_subnet);
}

proof fn blocks_differ(base: Ipv4Addr, m: u16, n: u16)
    requires
        m < n < m + 256,
    ensures
        base.block(m as int % 256) != base.block(n as int % 256),
{
    let top = (base.bits as int / 0x1_0000) * 0x1_0000;
    assert(m as int % 256 != n as int % 256);
    assert(top + 255 * 256 <= u32::MAX);
}

/// Handing out a private IPv6 subnet moves on to the next, and no subnet is
/// handed out twice.
pub proof fn private_subnets_v6_differ(c: CoreView, d: CoreView)
    requires
        c.cfg.private_cidr_v6 == d.cfg.private_cidr_v6,
        c.next_private_subnet_v6 < d.next_private_subnet_v6,
        c.alloc_private_v6().1 is Ok,
        d.alloc_private_v6().1 is Ok,
    ensures
        c.alloc_private_v6().0.next_private_subnet_v6 == c.next_private_subnet_v6 + 1,
        c.alloc_private_v6().1 != d.alloc_private_v6().1,
{
    let base = c.cfg.private_cidr_v6.addr;
    groups_differ(base, c.next_private_subnet_v6, d.next_private_subnet_v6);
}

/// Handing out a public IPv6 subnet moves on to the next, and no subnet is
/// handed out twice.
pub proof fn public_subnets_v6_differ(c: CoreView, d: CoreView)
    requires
        c.cfg.public_cidr_v6 == d.cfg.public_cidr_v6,
        c.next_public_subnet_v6 < d.next_public_subnet_v6,
        c.alloc_public_v6().1 is Ok,
        d.alloc_public_v6().1 is Ok,
    ensures
        c.alloc_public_v6().0.next_public_subnet_v6 == c.next_public_subnet_v6 + 1,
        c.alloc_public_v6().1 != d.alloc_public_v6().1,
{
    let base = c.cfg.public_cidr_v6.addr;
    groups_differ(base, c.next_public_subnet_v6, d.next_public_subnet_v6);
}

proof fn groups_differ(base: Ipv6Addr, m: u16, n: u16)
    requires
        m < n,
    ensures
        base.subnet(m as int) != base.subnet(n as int),
{
    let top = (base.bits as int / 0x1_0000_0000_0000_0000_0000) * 0x1_0000_0000_0000_0000_0000;
    assert(top + 0xffff * 0x1_0000_0000_0000_0000 <= u128::MAX);
}

/// The addresses of the exchange differ, and handing one out moves on.
pub proof fn exchange_addresses_differ(c: CoreView, d: CoreView)
    requires
        c.cfg.ix_gw == d.cfg.ix_gw,
        c.next_ix_low < d.next_ix_low,
        c.alloc_ix().1 is Ok,
        d.alloc_ix().1 is Ok,
    ensures
        c.alloc_ix().0.next_ix_low == c.next_ix_low + 1,
        c.alloc_ix().1 != d.alloc_ix().1,
{
    let top = (c.cfg.ix_gw.bits as int / 256) * 256;
    assert(top + 255 <= u32::MAX);
}

/// A subnet that a region hands out lies in the region's own /20 block.
pub proof fn region_subnets_lie_in_their_block(c: CoreView, name: Seq<char>)
    requires
        c.regions.contains_key(name),
        c.alloc_region_public(name).1 is Ok,
    ensures
        net4(region_net(c.regions[name].idx), 20).holds(
            (c.alloc_region_public(name).1->Ok_0).addr,
        ),
{
    assert(pow2(12) == 4096) by {
        reveal_with_fuel(pow2, 13);
    }
}

/// The /20 blocks of two regions have no address in common.
pub proof fn region_blocks_are_apart(a: u8, b: u8, ip: Ipv4Addr)
    requires
        a != b,
    ensures
        !(net4(region_net(a), 20).holds(ip) && net4(region_net(b), 20).holds(ip)),
{
    assert(pow2(12) == 4096) by {
        reveal_with_fuel(pow2, 13);
    }
    let base: int = 0xc612_0000;
    assert(region_net(a).bits == base + a * 4096);
    assert(region_net(b).bits == base + b * 4096);
    assert((base + a * 4096) / 4096 == 0xc6120 + a);
    assert((base + b * 4096) / 4096 == 0xc6120 + b);
    assert(32 - 20u8 == 12);
}

} // verus!
