//! How routers, switches and regions hang together: who owns a switch, which
//! gateway and subnet it has, and which addresses go where.
use vstd::prelude::*;

use crate::addr::{Ipv4Addr, Ipv4Net, Ipv6Addr, Ipv6Net};
use crate::nat_config::{IpSupport, NatConfig, NatV6Mode};
use crate::text::dec;
use crate::topology::nodes::{fresh_core, fresh_switch};
use crate::topology::regions::{end_of, far_end_of, link_key, link_key_is_symmetric, region_net};
use crate::topology::routers::RouterOptions;
use crate::topology::types::{
    CoreConfig, CoreError, CoreView, DownstreamPool, IfaceAttachment, NodeId, RouterView,
};

verus! {

// ── pools ────────────────────────────────────────────────────────────

/// A subnet from the private or the public pool has 24 bits, the first two octets
/// of the pool, the counter as its third and 0 as its last octet.
pub proof fn subnets_come_from_their_pools(c: CoreView)
    ensures
        c.alloc_private().1 is Ok <==> c.next_private_subnet < 65535,
        c.alloc_public().1 is Ok <==> c.next_public_subnet < 65535,
        c.alloc_private().1 is Ok ==> ({
            let n = c.alloc_private().1->Ok_0;
            &&& n.prefix_len == 24
            &&& n.addr.bits as int / 0x1_0000 == c.cfg.private_cidr.addr.bits as int / 0x1_0000
            &&& (n.addr.bits as int / 256) % 256 == c.next_private_subnet as int % 256
            &&& n.addr.bits as int % 256 == 0
            &&& c.alloc_private().0 == (CoreView {
                next_private_subnet: (c.next_private_subnet + 1) as u16,
                ..c
            })
        }),
        c.alloc_public().1 is Ok ==> ({
            let n = c.alloc_public().1->Ok_0;
            &&& n.prefix_len == 24
            &&& n.addr.bits as int / 0x1_0000 == c.cfg.public_cidr.addr.bits as int / 0x1_0000
            &&& (n.addr.bits as int / 256) % 256 == c.next_public_subnet as int % 256
            &&& n.addr.bits as int % 256 == 0
            &&& c.alloc_public().0 == (CoreView {
                next_public_subnet: (c.next_public_subnet + 1) as u16,
                ..c
            })
        }),
        c.alloc_private().1 is Err ==> c.alloc_private().0 == c && c.alloc_private().1->Err_0
            == CoreError::SubnetPoolExhausted,
        c.alloc_public().1 is Err ==> c.alloc_public().0 == c && c.alloc_public().1->Err_0
            == CoreError::SubnetPoolExhausted,
{
    block_of(c.cfg.private_cidr.addr, c.next_private_subnet as int % 256);
    block_of(c.cfg.public_cidr.addr, c.next_public_subnet as int % 256);
}

proof fn block_of(base: Ipv4Addr, n: int)
    requires
        0 <= n < 256,
    ensures
        base.block(n).bits as int / 0x1_0000 == base.bits as int / 0x1_0000,
        (base.block(n).bits as int / 256) % 256 == n,
        base.block(n).bits as int % 256 == 0,
{
    let top = base.bits as int / 0x1_0000;
    assert(top * 0x1_0000 + n * 256 <= u32::MAX);
    assert((top * 0x1_0000 + n * 256) / 256 == top * 256 + n);
}

/// An IPv6 subnet from the private or the public pool has 64 bits, the first three
/// groups of the pool, the counter as its fourth group and zeros behind it.
pub proof fn v6_subnets_come_from_their_pools(c: CoreView)
    ensures
        c.alloc_private_v6().1 is Ok <==> c.next_private_subnet_v6 < 65535,
        c.alloc_public_v6().1 is Ok <==> c.next_public_subnet_v6 < 65535,
        c.alloc_private_v6().1 is Ok ==> c.alloc_private_v6().1->Ok_0.prefix_len == 64
            && c.alloc_private_v6().1->Ok_0.addr.bits as int
            == (c.cfg.private_cidr_v6.addr.bits as int / 0x1_0000_0000_0000_0000_0000)
            * 0x1_0000_0000_0000_0000_0000 + c.next_private_subnet_v6 * 0x1_0000_0000_0000_0000
            && c.alloc_private_v6().0 == (CoreView {
            next_private_subnet_v6: (c.next_private_subnet_v6 + 1) as u16,
            ..c
        }),
        c.alloc_public_v6().1 is Ok ==> c.alloc_public_v6().1->Ok_0.prefix_len == 64
            && c.alloc_public_v6().1->Ok_0.addr.bits as int
            == (c.cfg.public_cidr_v6.addr.bits as int / 0x1_0000_0000_0000_0000_0000)
            * 0x1_0000_0000_0000_0000_0000 + c.next_public_subnet_v6 * 0x1_0000_0000_0000_0000
            && c.alloc_public_v6().0 == (CoreView {
            next_public_subnet_v6: (c.next_public_subnet_v6 + 1) as u16,
            ..c
        }),
{
    group_of(c.cfg.private_cidr_v6.addr, c.next_private_subnet_v6);
    group_of(c.cfg.public_cidr_v6.addr, c.next_public_subnet_v6);
}

proof fn group_of(base: Ipv6Addr, n: u16)
    ensures
        base.subnet(n as int).bits as int == (base.bits as int / 0x1_0000_0000_0000_0000_0000)
            * 0x1_0000_0000_0000_0000_0000 + n * 0x1_0000_0000_0000_0000,
{
    let top = base.bits as int / 0x1_0000_0000_0000_0000_0000;
    assert(top * 0x1_0000_0000_0000_0000_0000 + n * 0x1_0000_0000_0000_0000 <= u128::MAX);
}

/// An address on the exchange is that of the exchange's gateway with the counter
/// in its last octet, or its last group; there are those from the counter up to
/// 254, or up to 65534.
pub proof fn exchange_hands_out_its_own_addresses(c: CoreView)
    ensures
        c.alloc_ix().1 is Ok <==> 0 < c.next_ix_low < 255,
        c.alloc_ix_v6().1 is Ok <==> c.next_ix_low_v6 < 65535,
        c.alloc_ix().1 is Ok ==> ({
            let ip = c.alloc_ix().1->Ok_0;
            &&& ip.bits as int / 256 == c.cfg.ix_gw.bits as int / 256
            &&& ip.bits as int % 256 == c.next_ix_low
            &&& c.alloc_ix().0 == (CoreView { next_ix_low: (c.next_ix_low + 1) as u8, ..c })
        }),
        c.alloc_ix_v6().1 is Ok ==> ({
            let ip = c.alloc_ix_v6().1->Ok_0;
            &&& ip.bits as int / 0x1_0000 == c.cfg.ix_gw_v6.bits as int / 0x1_0000
            &&& ip.bits as int % 0x1_0000 == c.next_ix_low_v6
            &&& c.alloc_ix_v6().0 == (CoreView {
                next_ix_low_v6: (c.next_ix_low_v6 + 1) as u16,
                ..c
            })
        }),
{
    host4(c.cfg.ix_gw, c.next_ix_low as int);
    host6(c.cfg.ix_gw_v6, c.next_ix_low_v6 as int);
}

proof fn host4(base: Ipv4Addr, h: int)
    requires
        0 <= h < 256,
    ensures
        base.host(h).bits as int / 256 == base.bits as int / 256,
        base.host(h).bits as int % 256 == h,
{
    let top = base.bits as int / 256;
    assert(top * 256 + h <= u32::MAX);
}

proof fn host6(base: Ipv6Addr, h: int)
    requires
        0 <= h < 0x1_0000,
    ensures
        base.host(h).bits as int / 0x1_0000 == base.bits as int / 0x1_0000,
        base.host(h).bits as int % 0x1_0000 == h,
{
    let top = base.bits as int / 0x1_0000;
    assert(top * 0x1_0000 + h <= u128::MAX);
    vstd::arithmetic::div_mod::lemma_fundamental_div_mod_converse(
        top * 0x1_0000 + h,
        0x1_0000,
        top,
        h,
    );
}

// ── nodes ────────────────────────────────────────────────────────────

/// A lab starts with the exchange alone: the switch `ix`, with the exchange's
/// subnet and gateway. Hosts on the exchange start at 10, IPv6 hosts at 16.
pub proof fn labs_start_with_the_exchange(cfg: CoreConfig)
    ensures
        ({
            let c = fresh_core(cfg);
            let ix = c.switches[c.ix_sw];
            &&& c.cfg == cfg
            &&& c.switches.contains_key(c.ix_sw)
            &&& forall|id: NodeId| #[trigger] c.switches.contains_key(id) ==> id == c.ix_sw
            &&& c.names.contains_key("ix"@) && c.names["ix"@] == c.ix_sw
            &&& forall|id: NodeId| !#[trigger] c.devices.contains_key(id)
            &&& forall|id: NodeId| !#[trigger] c.routers.contains_key(id)
            &&& forall|n: Seq<char>| !#[trigger] c.regions.contains_key(n)
            &&& ix.cidr == Some(cfg.ix_cidr) && ix.gw == Some(cfg.ix_gw)
            &&& ix.cidr_v6 == Some(cfg.ix_cidr_v6) && ix.gw_v6 == Some(cfg.ix_gw_v6)
            &&& ix.owner_router is None
            &&& c.ix_sw.0 < c.next_id
            &&& c.next_ix_low == 10 && c.next_ix_low_v6 == 16
            &&& c.next_private_subnet == 1 && c.next_public_subnet == 1
            &&& c.next_private_subnet_v6 == 1 && c.next_public_subnet_v6 == 1
            &&& c.next_region_idx == 1
            &&& c.next_interregion_subnet == 0 && c.next_interregion_subnet_v6 == 0
        }),
{
}

/// A device that was added has no interface and is found under its name; nothing
/// else changes but the next identifier.
pub proof fn added_device_is_bare(c: CoreView, name: Seq<char>)
    requires
        c.next_id < u64::MAX,
    ensures
        ({
            let after = c.added_device(name);
            let id = NodeId(c.next_id);
            let d = after.devices[id];
            &&& after.devices.contains_key(id)
            &&& after.device_named(name) == Some(id)
            &&& d.id == id && d.name == name && d.interfaces.len() == 0 && d.default_via.len() == 0
            &&& d.ns == "lab"@ + dec(c.cfg.lab_id as nat) + "-d"@ + dec(c.next_id as nat)
            &&& d.mtu is None && d.provisioning_mode is None
            &&& after.next_id == c.next_id + 1
            &&& forall|x: NodeId|
                x != id ==> (#[trigger] after.devices.contains_key(x) <==> c.devices.contains_key(
                    x,
                ))
            &&& forall|x: NodeId|
                x != id && c.devices.contains_key(x) ==> #[trigger] after.devices[x]
                    == c.devices[x]
            &&& forall|n: Seq<char>|
                n != name && c.names.contains_key(n) ==> #[trigger] after.names[n] == c.names[n]
            &&& after == (CoreView {
                devices: after.devices,
                names: after.names,
                next_id: after.next_id,
                ..c
            })
        }),
{
    reveal_strlit("");
}

/// A router that was added has its settings, a bridge of its own, and no
/// connection yet; it advertises itself every 30 seconds for 30 minutes.
pub proof fn added_router_is_unconnected(
    c: CoreView,
    name: Seq<char>,
    nat_cfg: Option<NatConfig>,
    pool: DownstreamPool,
    region: Option<Seq<char>>,
    ip_support: IpSupport,
    nat_v6: NatV6Mode,
)
    requires
        c.next_id < u64::MAX,
        c.bridge_counter < u32::MAX,
    ensures
        ({
            let after = c.added_router(name, nat_cfg, pool, region, ip_support, nat_v6);
            let id = NodeId(c.next_id);
            let r = after.routers[id];
            &&& after.routers.contains_key(id)
            &&& after.router_named(name) == Some(id)
            &&& r.id == id && r.name == name && r.region == region
            &&& r.ns == "lab"@ + dec(c.cfg.lab_id as nat) + "-r"@ + dec(c.next_id as nat)
            &&& r.cfg.nat == nat_cfg && r.cfg.nat_v6 == nat_v6 && r.cfg.ip_support == ip_support
                && r.cfg.downstream_pool == pool
            &&& r.cfg.mtu is None
            &&& r.cfg.firewall == crate::firewall::Firewall::Off
            &&& r.cfg.ra_enabled && r.cfg.ra_interval_secs == 30 && r.cfg.ra_lifetime_secs == 1800
            &&& r.ra_runtime.enabled && r.ra_runtime.interval_secs == 30
                && r.ra_runtime.lifetime_secs == 1800
            &&& r.downlink_bridge == "br-"@ + c.cfg.bridge_tag@ + "-"@ + dec(
                c.bridge_counter as nat,
            )
            &&& r.uplink is None && r.downlink is None && r.upstream_ip is None
                && r.upstream_ip_v6 is None && r.downstream_cidr is None && r.downstream_gw is None
                && r.downstream_cidr_v6 is None && r.downstream_gw_v6 is None && r.upstream_ll_v6
                is None && r.downstream_ll_v6 is None
            &&& after.next_id == c.next_id + 1
            &&& after.bridge_counter == c.bridge_counter + 1
            &&& forall|x: NodeId|
                x != id && c.routers.contains_key(x) ==> #[trigger] after.routers[x]
                    == c.routers[x]
            &&& after == (CoreView {
                routers: after.routers,
                names: after.names,
                next_id: after.next_id,
                bridge_counter: after.bridge_counter,
                ..c
            })
        }),
{
}

/// A router that was added lets "fragmentation needed" messages through.
pub proof fn added_router_reports_fragmentation(
    c: CoreView,
    name: Seq<char>,
    nat_cfg: Option<NatConfig>,
    pool: DownstreamPool,
    region: Option<Seq<char>>,
    ip_support: IpSupport,
    nat_v6: NatV6Mode,
)
    ensures
        !c.added_router(
            name,
            nat_cfg,
            pool,
            region,
            ip_support,
            nat_v6,
        ).routers[NodeId(c.next_id)].cfg.block_icmp_frag_needed,
{
}

/// A switch that was added is empty: hosts start at 2.
pub proof fn added_switch_is_empty(
    c: CoreView,
    name: Seq<char>,
    cidr: Option<Ipv4Net>,
    gw: Option<Ipv4Addr>,
    cidr_v6: Option<Ipv6Net>,
    gw_v6: Option<Ipv6Addr>,
)
    requires
        c.next_id < u64::MAX,
    ensures
        ({
            let after = c.added_switch(name, fresh_switch(name, cidr, gw, cidr_v6, gw_v6));
            let id = NodeId(c.next_id);
            let s = after.switches[id];
            &&& after.switches.contains_key(id)
            &&& after.names.contains_key(name) && after.names[name] == id
            &&& s.name == name && s.cidr == cidr && s.gw == gw && s.cidr_v6 == cidr_v6 && s.gw_v6
                == gw_v6
            &&& s.owner_router is None && s.bridge is None
            &&& s.next_host == 2 && s.next_host_v6 == 2
            &&& after.next_id == c.next_id + 1
            &&& forall|x: NodeId|
                x != id && c.switches.contains_key(x) ==> #[trigger] after.switches[x]
                    == c.switches[x]
            &&& after == (CoreView {
                switches: after.switches,
                names: after.names,
                next_id: after.next_id,
                ..c
            })
        }),
{
}

/// A router that was connected to a switch above it has that uplink and the
/// addresses it was given; a link-local address comes with the IPv6 one. Nothing
/// else changes.
pub proof fn uplinked_router_is_above(
    c: CoreView,
    router: NodeId,
    sw: NodeId,
    ip: Option<Ipv4Addr>,
    ip_v6: Option<Ipv6Addr>,
)
    requires
        c.routers.contains_key(router),
        router.0 < 0x1_0000_0000,
        sw.0 < 0x1_0000_0000,
    ensures
        ({
            let after = c.uplinked(router, sw, ip, ip_v6);
            let r = after.routers[router];
            &&& r.uplink == Some(sw)
            &&& r.upstream_ip == ip
            &&& r.upstream_ip_v6 == ip_v6
            &&& r.upstream_ll_v6 is Some <==> ip_v6 is Some
            &&& ip_v6 is Some ==> r.upstream_ll_v6->0.bits as int
                == 0xfe80_0000_0000_0000_0000_0000_0000_0000 + router.0 * 0x1_0000_0000 + sw.0
            &&& r == (RouterView {
                uplink: r.uplink,
                upstream_ip: r.upstream_ip,
                upstream_ip_v6: r.upstream_ip_v6,
                upstream_ll_v6: r.upstream_ll_v6,
                ..c.routers[router]
            })
            &&& forall|x: NodeId|
                x != router && c.routers.contains_key(x) ==> #[trigger] after.routers[x]
                    == c.routers[x]
            &&& after == (CoreView { routers: after.routers, ..c })
        }),
{
}

/// A router that was connected to a switch below it and that switch know each
/// other: the switch belongs to the router and stands for its bridge, and the two
/// have the same subnet and gateway. A router has a subnet for each family that it
/// supports, and none for the others.
pub proof fn downlinked_router_is_the_gateway(
    c: CoreView,
    router: NodeId,
    sw: NodeId,
    wish: Option<Ipv4Net>,
)
    requires
        c.downlinked(router, sw, wish).1 is Ok,
        c.switches.contains_key(sw),
    ensures
        ({
            let (after, r) = c.downlinked(router, sw, wish);
            let x = after.routers[router];
            let s = after.switches[sw];
            let old = c.routers[router];
            &&& x.downlink == Some(sw)
            &&& s.owner_router == Some(router)
            &&& s.bridge == Some(old.downlink_bridge)
            &&& x.downstream_cidr is Some <==> old.cfg.ip_support == IpSupport::V4Only
                || old.cfg.ip_support == IpSupport::DualStack
            &&& x.downstream_gw is Some <==> x.downstream_cidr is Some
            &&& x.downstream_cidr_v6 is Some <==> old.cfg.ip_support == IpSupport::V6Only
                || old.cfg.ip_support == IpSupport::DualStack
            &&& x.downstream_cidr is Some ==> s.cidr == x.downstream_cidr && s.gw
                == x.downstream_gw
            &&& x.downstream_cidr is None ==> s.cidr == c.switches[sw].cidr && s.gw
                == c.switches[sw].gw
            &&& x.downstream_cidr_v6 is Some ==> s.cidr_v6 == x.downstream_cidr_v6 && s.gw_v6
                == x.downstream_gw_v6
            &&& x.downstream_cidr_v6 is None ==> s.cidr_v6 == c.switches[sw].cidr_v6 && s.gw_v6
                == c.switches[sw].gw_v6
            &&& r->Ok_0 == (x.downstream_cidr, x.downstream_gw)
            &&& x.downstream_ll_v6 is Some <==> x.downstream_cidr_v6 is Some
            &&& x.uplink == old.uplink && x.upstream_ip == old.upstream_ip && x.upstream_ip_v6
                == old.upstream_ip_v6 && x.cfg == old.cfg && x.ns == old.ns && x.name == old.name
                && x.downlink_bridge == old.downlink_bridge && x.region == old.region
            &&& s.next_host == c.switches[sw].next_host && s.next_host_v6
                == c.switches[sw].next_host_v6
            &&& after.devices == c.devices
            &&& forall|id: NodeId|
                id != router && c.routers.contains_key(id) ==> #[trigger] after.routers[id]
                    == c.routers[id]
            &&& forall|id: NodeId|
                id != sw && c.switches.contains_key(id) ==> #[trigger] after.switches[id]
                    == c.switches[id]
        }),
{
}

/// The link-local address of a router below is made of the router's number, the switch's
/// number and a mark that sets it apart from the one above.
pub proof fn downlinked_router_has_its_own_link_local(
    c: CoreView,
    router: NodeId,
    sw: NodeId,
    wish: Option<Ipv4Net>,
)
    requires
        c.downlinked(router, sw, wish).1 is Ok,
        c.switches.contains_key(sw),
        router.0 < 0x100_0000,
        sw.0 < 0x100_0000,
    ensures
        ({
            let x = c.downlinked(router, sw, wish).0.routers[router];
            x.downstream_cidr_v6 is Some ==> x.downstream_ll_v6->0.bits as int
                == 0xfe80_0000_0000_0000_0000_0000_0000_0000 + router.0 * 0x100_0000_0000 + sw.0
                * 0x1_0000 + 0xa5a5
        }),
{
}

/// Where the subnet below a router comes from. A switch that has a subnet keeps it
/// and its gateway. Without one, the subnet that is asked for is taken, and else
/// the next one from the router's pool; the gateway is then the first host.
pub proof fn downstream_subnets_are_picked(
    c: CoreView,
    router: NodeId,
    sw: NodeId,
    wish: Option<Ipv4Net>,
)
    requires
        c.downlinked(router, sw, wish).1 is Ok,
        c.switches.contains_key(sw),
        c.routers[router].cfg.ip_support != IpSupport::V6Only,
    ensures
        ({
            let (after, r) = c.downlinked(router, sw, wish);
            let old = c.switches[sw];
            let cidr = (r->Ok_0).0;
            let gw = (r->Ok_0).1;
            let pool = c.routers[router].cfg.downstream_pool;
            &&& old.cidr is Some ==> cidr == old.cidr && gw == old.gw
            &&& old.cidr is None && wish is Some ==> cidr == wish
            &&& old.cidr is None && wish is None && pool == DownstreamPool::Private ==> cidr
                == Some(c.alloc_private().1->Ok_0) && after.next_private_subnet
                == c.next_private_subnet + 1 && after.next_public_subnet == c.next_public_subnet
            &&& old.cidr is None && wish is None && pool == DownstreamPool::Public ==> cidr
                == Some(c.alloc_public().1->Ok_0) && after.next_public_subnet
                == c.next_public_subnet + 1 && after.next_private_subnet == c.next_private_subnet
            &&& old.cidr is Some || wish is Some ==> after.next_private_subnet
                == c.next_private_subnet && after.next_public_subnet == c.next_public_subnet
            &&& old.cidr is None ==> {
                &&& gw is Some
                &&& gw->0.bits as int / 256 == cidr->0.addr.bits as int / 256
                &&& gw->0.bits as int % 256 == 1
            }
        }),
{
    let r = c.downlinked(router, sw, wish).1;
    let cidr = (r->Ok_0).0;
    if cidr is Some {
        host4(cidr->0.addr, 1);
    }
}

/// Where the IPv6 subnet below a router comes from: the switch's own, else the
/// next one from the router's pool, with its first host as the gateway.
pub proof fn downstream_v6_subnets_are_picked(
    c: CoreView,
    router: NodeId,
    sw: NodeId,
    wish: Option<Ipv4Net>,
)
    requires
        c.downlinked(router, sw, wish).1 is Ok,
        c.switches.contains_key(sw),
        c.routers[router].cfg.ip_support != IpSupport::V4Only,
    ensures
        ({
            let after = c.downlinked(router, sw, wish).0;
            let x = after.routers[router];
            let old = c.switches[sw];
            let pool = c.routers[router].cfg.downstream_pool;
            &&& old.cidr_v6 is Some ==> x.downstream_cidr_v6 == old.cidr_v6 && x.downstream_gw_v6
                == old.gw_v6
            &&& old.cidr_v6 is None && pool == DownstreamPool::Private ==> x.downstream_cidr_v6
                == Some(c.alloc_private_v6().1->Ok_0) && after.next_private_subnet_v6
                == c.next_private_subnet_v6 + 1
            &&& old.cidr_v6 is None && pool == DownstreamPool::Public ==> x.downstream_cidr_v6
                == Some(c.alloc_public_v6().1->Ok_0) && after.next_public_subnet_v6
                == c.next_public_subnet_v6 + 1
            &&& old.cidr_v6 is None ==> {
                &&& x.downstream_gw_v6 is Some
                &&& x.downstream_gw_v6->0.bits as int / 0x1_0000
                    == x.downstream_cidr_v6->0.addr.bits as int / 0x1_0000
                &&& x.downstream_gw_v6->0.bits as int % 0x1_0000 == 1
            }
        }),
{
    let x = c.downlinked(router, sw, wish).0.routers[router];
    if x.downstream_cidr_v6 is Some {
        host6(x.downstream_cidr_v6->0.addr, 1);
    }
}

/// A switch is in use exactly where some interface of some device is attached to
/// it: a router with a device on its switch stays.
pub proof fn attached_devices_hold_their_router(c: CoreView, sw: NodeId, device: NodeId, k: int)
    requires
        c.devices.contains_key(device),
        0 <= k < c.devices[device].interfaces.len(),
    ensures
        c.devices[device].interfaces[k].attachment == IfaceAttachment::Routed(sw) ==> c.in_use(sw),
        !c.in_use(sw) ==> c.devices[device].interfaces[k].attachment != IfaceAttachment::Routed(sw),
        (forall|id: NodeId, j: int|
            c.devices.contains_key(id) && 0 <= j < c.devices[id].interfaces.len() ==> (
            #[trigger] c.devices[id].interfaces[j]).attachment != IfaceAttachment::Routed(sw))
            ==> !c.in_use(sw),
{
    if c.devices[device].interfaces[k].attachment == IfaceAttachment::Routed(sw) {
        assert(c.devices[device].interfaces[k].uplink() == Some(sw));
        assert(crate::topology::nodes::uses(c.devices[device], sw));
    }
}

// ── entering routers ─────────────────────────────────────────────────

/// Which switch a router goes to: that of the router above it, else that of its
/// region's router, else the exchange.
pub proof fn entered_router_is_under_its_upstream(c: CoreView, o: RouterOptions)
    requires
        c.next_id < u64::MAX - 1,
        c.entered(o).1 is Ok,
    ensures
        ({
            let r = c.entered(o).0.routers[NodeId(c.next_id)];
            let up = r.uplink->0;
            &&& r.uplink is Some
            &&& o.region is Some ==> c.regions.contains_key((o.region->0)@)
            &&& o.upstream is Some ==> c.routers[o.upstream->0].downlink == Some(up)
            &&& o.upstream is None && o.region is Some
                ==> c.routers[c.regions[(o.region->0)@].router_id].downlink == Some(up)
            &&& o.upstream is None && o.region is None ==> up == c.ix_sw
        }),
{
}

proof fn connecting_keeps_the_settings(
    c: CoreView,
    o: RouterOptions,
    id: NodeId,
    below: NodeId,
    up: NodeId,
)
    requires
        c.routers.contains_key(id),
    ensures
        ({
            let after = c.connected(o, id, below, up).0;
            &&& after.routers[id].cfg == c.routers[id].cfg
            &&& after.routers[id].name == c.routers[id].name
            &&& after.routers[id].ra_runtime == c.routers[id].ra_runtime
        }),
{
}

/// A router that is entered has what its options ask for. Without a choice its
/// subnets are private behind NAT, and public otherwise; the seconds between
/// advertisements in use are at least one.
pub proof fn entered_router_has_its_options(c: CoreView, o: RouterOptions)
    requires
        c.next_id < u64::MAX - 1,
        c.entered(o).1 is Ok,
    ensures
        ({
            let r = c.entered(o).0.routers[NodeId(c.next_id)];
            &&& r.cfg.mtu == o.mtu
            &&& r.cfg.firewall == o.firewall
            &&& r.cfg.block_icmp_frag_needed == o.block_icmp_frag_needed
            &&& r.cfg.nat == o.nat.spec_config()
            &&& r.cfg.nat_v6 == o.nat_v6
            &&& r.cfg.ip_support == o.ip_support
            &&& r.cfg.ra_enabled == o.ra_enabled
            &&& r.cfg.ra_interval_secs == o.ra_interval_secs
            &&& r.cfg.ra_lifetime_secs == o.ra_lifetime_secs
            &&& r.ra_runtime.enabled == o.ra_enabled
            &&& r.ra_runtime.lifetime_secs == o.ra_lifetime_secs
            &&& o.ra_interval_secs >= 1 ==> r.ra_runtime.interval_secs == o.ra_interval_secs
            &&& o.ra_interval_secs == 0 ==> r.ra_runtime.interval_secs == 1
            &&& o.downstream_pool is Some ==> r.cfg.downstream_pool == o.downstream_pool->0
            &&& o.downstream_pool is None && o.nat.spec_config() is Some ==> r.cfg.downstream_pool
                == DownstreamPool::Private
            &&& o.downstream_pool is None && o.nat.spec_config() is None ==> r.cfg.downstream_pool
                == DownstreamPool::Public
            &&& r.name == o.name@
        }),
{
    let id = NodeId(c.next_id);
    let below = NodeId(below_of(c));
    connecting_keeps_the_settings(c.placed(o), o, id, below, c.switch_above(o)->Ok_0);
}

spec fn below_of(c: CoreView) -> u64 {
    (c.next_id + 1) as u64
}

/// The addresses of a router that is entered: on the exchange the exchange's next
/// ones, in IPv4 and IPv6, for the families that it supports.
pub proof fn routers_on_the_exchange_get_its_addresses(c: CoreView, o: RouterOptions)
    requires
        c.next_id < u64::MAX - 1,
        c.entered(o).1 is Ok,
        o.upstream is None,
        o.region is None,
    ensures
        ({
            let after = c.entered(o).0;
            let r = after.routers[NodeId(c.next_id)];
            &&& o.ip_support != IpSupport::V6Only ==> r.upstream_ip == Some(c.alloc_ix().1->Ok_0)
                && after.next_ix_low == c.next_ix_low + 1
            &&& o.ip_support == IpSupport::V6Only ==> r.upstream_ip is None && after.next_ix_low
                == c.next_ix_low
            &&& o.ip_support != IpSupport::V4Only ==> r.upstream_ip_v6 == Some(
                c.alloc_ix_v6().1->Ok_0,
            ) && after.next_ix_low_v6 == c.next_ix_low_v6 + 1
            &&& o.ip_support == IpSupport::V4Only ==> r.upstream_ip_v6 is None
                && after.next_ix_low_v6 == c.next_ix_low_v6
        }),
{
}

/// Which subnet a router that is entered has below it: the one its options ask
/// for; else, for a public router in a region, the next of the region's block; else
/// the next of its pool.
pub proof fn entered_routers_have_their_subnets(c: CoreView, o: RouterOptions)
    requires
        c.next_id < u64::MAX - 1,
        c.entered(o).1 is Ok,
        o.ip_support != IpSupport::V6Only,
    ensures
        ({
            let r = c.entered(o).0.routers[NodeId(c.next_id)];
            let private = o.downstream_pool == Some(DownstreamPool::Private) || (o.downstream_pool
                is None && o.nat.spec_config() is Some);
            &&& o.downstream_cidr is Some ==> r.downstream_cidr == o.downstream_cidr
            &&& o.downstream_cidr is None && !private && o.region is Some ==> r.downstream_cidr
                == Some(c.alloc_region_public((o.region->0)@).1->Ok_0)
            &&& o.downstream_cidr is None && private ==> r.downstream_cidr == Some(
                c.alloc_private().1->Ok_0,
            )
            &&& o.downstream_cidr is None && !private && o.region is None ==> r.downstream_cidr
                == Some(c.alloc_public().1->Ok_0)
        }),
{
}

/// How a router is wired: to the bridge of the switch above it, in the namespace of
/// the router that owns that switch, or at the exchange in the root namespace; its
/// default route goes to that switch's gateway; the bridge below it has its own
/// gateway address. Routes back to the subnets below are set where no NAT hides
/// them.
pub proof fn routers_are_wired_to_their_switches(c: CoreView, r: RouterView, up: NodeId)
    ensures
        ({
            let w = c.wiring_of(r, up);
            let s = c.switches[up];
            &&& w.ns == r.ns
            &&& w.bridge == r.downlink_bridge
            &&& w.wan_if == (if r.uplink == Some(c.ix_sw) {
                "ix"@
            } else {
                "wan"@
            })
            &&& w.above_ns == (if s.owner_router is Some && c.routers.contains_key(
                s.owner_router->0,
            ) {
                c.routers[s.owner_router->0].ns
            } else {
                c.cfg.root_ns@
            })
            &&& w.above_bridge == (if up == c.ix_sw {
                c.cfg.ix_br@
            } else if s.bridge is Some {
                s.bridge->0
            } else {
                "br-lan"@
            })
            &&& w.v4 is Some <==> r.upstream_ip is Some && s.gw is Some
            &&& w.v4 is Some ==> Some((w.v4->0).0) == r.upstream_ip && Some((w.v4->0).2) == s.gw
                && (w.v4->0).1 == (if s.cidr is Some {
                s.cidr->0.prefix_len
            } else {
                24
            })
            &&& w.v6 is Some <==> r.upstream_ip_v6 is Some && s.gw_v6 is Some
            &&& w.v6 is Some ==> Some((w.v6->0).0) == r.upstream_ip_v6 && Some((w.v6->0).2)
                == s.gw_v6 && (w.v6->0).1 == (if s.cidr_v6 is Some {
                s.cidr_v6->0.prefix_len
            } else {
                64
            })
            &&& w.bridge_v4 is Some <==> r.downstream_gw is Some && r.downstream_cidr is Some
            &&& w.bridge_v4 is Some ==> Some((w.bridge_v4->0).0) == r.downstream_gw
                && (w.bridge_v4->0).1 == r.downstream_cidr->0.prefix_len
            &&& w.bridge_v6 is Some <==> r.downstream_gw_v6 is Some && r.downstream_cidr_v6 is Some
            &&& w.bridge_v6 is Some ==> Some((w.bridge_v6->0).0) == r.downstream_gw_v6
                && (w.bridge_v6->0).1 == r.downstream_cidr_v6->0.prefix_len
            &&& w.back_v4 is Some <==> r.cfg.nat is None && r.downstream_cidr is Some
                && r.upstream_ip is Some
            &&& w.back_v4 is Some ==> Some((w.back_v4->0).0) == r.downstream_cidr && Some(
                (w.back_v4->0).1,
            ) == r.upstream_ip
            &&& w.back_v6 is Some <==> r.cfg.nat_v6 == NatV6Mode::Off && r.downstream_cidr_v6
                is Some && r.upstream_ip_v6 is Some
            &&& w.back_v6 is Some ==> Some((w.back_v6->0).0) == r.downstream_cidr_v6 && Some(
                (w.back_v6->0).1,
            ) == r.upstream_ip_v6
        }),
{
}

// ── regions ──────────────────────────────────────────────────────────

/// Two linked regions get the next pair of addresses out of `203.0.113.0/24` and
/// `fd11::/48`: the first named the odd one, the second the one behind it. The
/// link is up, and nothing else changes. It takes two regions that are there and
/// not linked yet.
pub proof fn linked_regions_have_their_addresses(c: CoreView, a: Seq<char>, b: Seq<char>)
    requires
        a != b,
    ensures
        ({
            let (after, r) = c.linked(a, b);
            let n = c.next_interregion_subnet as int;
            let m = c.next_interregion_subnet_v6 as int;
            let ip_a = (r->Ok_0).0;
            let ip_b = (r->Ok_0).1;
            &&& r is Ok <==> c.regions.contains_key(a) && c.regions.contains_key(b)
                && !c.links.contains_key(link_key(a, b)) && n < 64 && m < 64
            &&& c.links.contains_key(link_key(a, b)) ==> r->Err_0 == CoreError::AlreadyLinked
            &&& r is Ok ==> {
                &&& ip_a.bits as int == 203 * 0x100_0000 + 113 * 256 + n * 4 + 1
                &&& ip_b.bits as int == 203 * 0x100_0000 + 113 * 256 + n * 4 + 2
                &&& (r->Ok_0).2.bits as int == 0xfd11_0000_0000_0000_0000_0000_0000_0000 + m
                    * 0x1_0000_0000_0000_0000 + 1
                &&& (r->Ok_0).3.bits as int == 0xfd11_0000_0000_0000_0000_0000_0000_0000 + m
                    * 0x1_0000_0000_0000_0000 + 2
                &&& after.next_interregion_subnet == n + 1
                &&& after.next_interregion_subnet_v6 == m + 1
                &&& after.links.contains_key(link_key(a, b))
                &&& after.links.contains_key(link_key(b, a))
                &&& !after.links[link_key(a, b)].broken
                &&& end_of(link_key(a, b), after.links[link_key(a, b)], a) == ip_a
                &&& end_of(link_key(a, b), after.links[link_key(a, b)], b) == ip_b
                &&& far_end_of(link_key(a, b), after.links[link_key(a, b)], a) == ip_b
                &&& far_end_of(link_key(a, b), after.links[link_key(a, b)], b) == ip_a
                &&& forall|k: (Seq<char>, Seq<char>)|
                    k != link_key(a, b) && c.links.contains_key(k) ==> #[trigger] after.links[k]
                        == c.links[k]
                &&& after.devices == c.devices && after.routers == c.routers && after.switches
                    == c.switches && after.regions == c.regions
            }
        }),
{
    link_key_is_symmetric(a, b);
    crate::text::text_lt_is_total(a, b);
    assert(Ipv4Addr::of(203, 0, 113, c.next_interregion_subnet * 4 + 1).bits as int == 203
        * 0x100_0000 + 113 * 256 + c.next_interregion_subnet * 4 + 1 || c.next_interregion_subnet
        >= 64);
    assert(Ipv4Addr::of(203, 0, 113, c.next_interregion_subnet * 4 + 2).bits as int == 203
        * 0x100_0000 + 113 * 256 + c.next_interregion_subnet * 4 + 2 || c.next_interregion_subnet
        >= 64);
}

/// The two ends of a link are told apart by the region that asks: what is near to
/// one is far from the other.
pub proof fn link_ends_face_each_other(c: CoreView, a: Seq<char>, b: Seq<char>)
    requires
        a != b,
    ensures
        ({
            let k = link_key(a, b);
            let l = c.links[k];
            &&& k == link_key(b, a)
            &&& (k == (a, b) || k == (b, a))
            &&& end_of(k, l, a) == far_end_of(k, l, b)
            &&& end_of(k, l, b) == far_end_of(k, l, a)
            &&& k == (a, b) ==> end_of(k, l, a) == l.ip_a && end_of(k, l, b) == l.ip_b
            &&& k == (b, a) ==> end_of(k, l, a) == l.ip_b && end_of(k, l, b) == l.ip_a
        }),
{
    link_key_is_symmetric(a, b);
}

/// A link that is there and up can be broken, and only such a one; one that is
/// broken can be restored, and only such a one. Breaking it takes it down and
/// changes nothing else; traffic can go through a third region over links that are
/// up.
pub proof fn links_break_and_are_restored(c: CoreView, a: Seq<char>, b: Seq<char>, m: Seq<char>)
    ensures
        ({
            let k = link_key(a, b);
            let there = c.links.contains_key(k);
            let known = c.regions.contains_key(a) && c.regions.contains_key(b);
            let up = |x: Seq<char>, y: Seq<char>|
                c.links.contains_key(link_key(x, y)) && !c.links[link_key(x, y)].broken;
            &&& c.link_problem(a, b, false) is None <==> there && !c.links[k].broken && known
            &&& c.link_problem(a, b, true) is None <==> there && c.links[k].broken && known
            &&& !there ==> c.link_problem(a, b, false) == Some(CoreError::NoLink)
                && c.link_problem(a, b, true) == Some(CoreError::NoLink)
            &&& there && c.links[k].broken ==> c.link_problem(a, b, false) == Some(
                CoreError::AlreadyBroken,
            )
            &&& there && !c.links[k].broken ==> c.link_problem(a, b, true) == Some(
                CoreError::NotBroken,
            )
            &&& c.detour(m, a, b) <==> m != a && m != b && c.regions.contains_key(m) && up(m, a)
                && up(m, b)
            &&& there ==> {
                let broken = c.marked(k, true);
                &&& broken.links[k].broken
                &&& broken.links[k].ip_a == c.links[k].ip_a
                &&& broken.links[k].ip_b == c.links[k].ip_b
                &&& !broken.link_up(a, b)
                &&& c.marked(k, false).link_up(a, b)
                &&& forall|x: (Seq<char>, Seq<char>)|
                    x != k && c.links.contains_key(x) ==> #[trigger] broken.links[x] == c.links[x]
                &&& broken == (CoreView { links: broken.links, ..c })
            }
            &&& !there ==> c.marked(k, true) == c && c.marked(k, false) == c
        }),
{
}

/// A region that was added has the next index, a router named after it on the
/// exchange, with the exchange's next addresses, and below that a public dual-stack
/// subnet: the first /24 of the region's own block of 4096 addresses from
/// 198.18.0.0 on, with hosts from 10 on.
pub proof fn added_region_has_its_router(c: CoreView, name: Seq<char>)
    requires
        c.next_id < u64::MAX - 1,
        c.region_added(name).1 is Ok,
    ensures
        ({
            let (after, r) = c.region_added(name);
            let idx = (r->Ok_0).0;
            let info = after.regions[name];
            let x = after.routers[info.router_id];
            let s = after.switches[x.downlink->0];
            &&& name.len() > 0 && !c.regions.contains_key(name)
            &&& idx == c.next_region_idx && 1 <= idx <= 16 || c.next_region_idx == 0
            &&& after.next_region_idx == c.next_region_idx + 1
            &&& after.regions.contains_key(name)
            &&& info.idx == idx && info.router_id == NodeId(c.next_id) && info.next_downstream == 1
            &&& x.name == "region_"@ + name
            &&& x.uplink == Some(c.ix_sw)
            &&& x.upstream_ip == Some((r->Ok_0).1) && x.upstream_ip_v6 == Some((r->Ok_0).2)
            &&& (r->Ok_0).1 == c.alloc_ix().1->Ok_0 && (r->Ok_0).2 == c.alloc_ix_v6().1->Ok_0
            &&& x.downlink is Some && s.owner_router == Some(info.router_id)
            &&& x.downstream_cidr is Some && x.downstream_cidr == s.cidr && x.downstream_gw == s.gw
            &&& x.downstream_cidr->0.prefix_len == 24
            &&& x.downstream_cidr->0.addr.bits as int == 198 * 0x100_0000 + 18 * 0x1_0000 + idx
                * 4096
            &&& x.downstream_cidr_v6 is Some && x.downstream_cidr_v6 == s.cidr_v6
            &&& x.cfg.nat is None && x.cfg.nat_v6 == NatV6Mode::Off && x.cfg.ip_support
                == IpSupport::DualStack && x.cfg.downstream_pool == DownstreamPool::Public
            &&& s.next_host == 10 && s.next_host_v6 == 10
            &&& after.devices == c.devices
            &&& forall|n: Seq<char>|
                n != name && c.regions.contains_key(n) ==> #[trigger] after.regions[n]
                    == c.regions[n]
            &&& forall|id: NodeId|
                id != NodeId(c.next_id) && c.routers.contains_key(id)
                    ==> #[trigger] after.routers[id] == c.routers[id]
        }),
{
}

/// A region hands out its /24 subnets one after the other: number 1 to 15 of the
/// block that its index gives it.
pub proof fn regions_hand_out_their_own_subnets(c: CoreView, name: Seq<char>)
    requires
        c.regions.contains_key(name),
    ensures
        ({
            let (after, r) = c.alloc_region_public(name);
            let i = c.regions[name];
            &&& r is Ok <==> i.next_downstream <= 15
            &&& r is Err ==> after == c && r->Err_0 == CoreError::SubnetPoolExhausted
            &&& r is Ok ==> {
                &&& r->Ok_0.prefix_len == 24
                &&& r->Ok_0.addr.bits as int == 198 * 0x100_0000 + 18 * 0x1_0000 + i.idx * 4096
                    + i.next_downstream * 256
                &&& after.regions[name].next_downstream == i.next_downstream + 1
                &&& after.regions[name].idx == i.idx
                &&& after.regions[name].router_id == i.router_id
                &&& after == (CoreView { regions: after.regions, ..c })
            }
        }),
{
    let i = c.regions[name];
    assert(region_net(i.idx).bits as int == 198 * 0x100_0000 + 18 * 0x1_0000 + i.idx * 4096);
}

} // verus!
