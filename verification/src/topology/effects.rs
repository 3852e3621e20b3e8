//! What a namespace is like after its links and routes were wired.
use vstd::prelude::*;

use crate::addr::{Ipv4Addr, Ipv6Addr, Ipv6Net};
use crate::iface::IfaceConfig;
use crate::profile::Ipv6ProvisioningMode;
use crate::topology::moves::{
    configured_interface_follows_its_configuration, lacks, prepared_interface_leads_to_the_router,
};
use crate::topology::regions::RegionSide;
use crate::topology::types::{BuildView, CoreError, CoreView, NodeId};
use crate::topology::wiring::{pair_steps, region_routes, side_steps, up_steps, StepView};

verus! {

/// What a namespace holds.
pub struct Namespace {
    /// The links that are up.
    pub up: Set<Seq<char>>,
    /// The addresses of each link, with their prefix lengths.
    pub addrs: Set<(Seq<char>, Ipv4Addr, u8)>,
    /// The IPv6 addresses of each link, with their prefix lengths.
    pub addrs_v6: Set<(Seq<char>, Ipv6Addr, u8)>,
    /// The gateway of each destination.
    pub routes: Map<(Ipv4Addr, u8), Ipv4Addr>,
    /// The gateway of each IPv6 destination.
    pub routes_v6: Map<(Ipv6Addr, u8), Ipv6Addr>,
    /// The namespace that each link is in.
    pub placed: Map<Seq<char>, Seq<char>>,
    /// The other end of each pair.
    pub peers: Map<Seq<char>, Seq<char>>,
}

/// A namespace after one step.
pub open spec fn after_step(n: Namespace, step: StepView) -> Namespace {
    match step {
        StepView::DeleteLink(link) => Namespace { placed: n.placed.remove(link), ..n },
        StepView::AddVeth(link, peer) => Namespace {
            placed: n.placed.insert(link, ""@).insert(peer, ""@),
            peers: n.peers.insert(link, peer).insert(peer, link),
            ..n
        },
        StepView::MoveLink(link, ns) => if n.placed.contains_key(link) {
            Namespace { placed: n.placed.insert(link, ns), ..n }
        } else {
            n
        },
        StepView::SetUp(link) => Namespace { up: n.up.insert(link), ..n },
        StepView::AddAddr4(link, ip, len) => Namespace {
            addrs: n.addrs.insert((link, ip, len)),
            ..n
        },
        StepView::DelAddr4(link, ip, len) => Namespace {
            addrs: n.addrs.remove((link, ip, len)),
            ..n
        },
        StepView::AddAddr6(link, ip, len) => Namespace {
            addrs_v6: n.addrs_v6.insert((link, ip, len)),
            ..n
        },
        StepView::AddRoute4(dst, len, via) => Namespace {
            routes: n.routes.insert((dst, len), via),
            ..n
        },
        StepView::ReplaceRoute4(dst, len, via) => Namespace {
            routes: n.routes.insert((dst, len), via),
            ..n
        },
        StepView::AddRoute6(dst, len, via) => Namespace {
            routes_v6: n.routes_v6.insert((dst, len), via),
            ..n
        },
        StepView::ReplaceDefault4(_, via) => Namespace {
            routes: n.routes.insert((Ipv4Addr { bits: 0 }, 0), via),
            ..n
        },
        StepView::SetDefault6(_, via) => Namespace {
            routes_v6: match via {
                Some(gw) => n.routes_v6.insert((Ipv6Addr { bits: 0 }, 0), gw),
                None => n.routes_v6.remove((Ipv6Addr { bits: 0 }, 0)),
            },
            ..n
        },
    }
}

/// A namespace after a list of steps, from the first to the last.
pub open spec fn after_steps(n: Namespace, steps: Seq<StepView>) -> Namespace
    decreases steps.len(),
{
    if steps.len() == 0 {
        n
    } else {
        after_steps(after_step(n, steps[0]), steps.drop_first())
    }
}

proof fn one_step(n: Namespace, steps: Seq<StepView>, rest: Seq<StepView>)
    requires
        steps.len() > 0,
        steps.drop_first() =~= rest,
    ensures
        after_steps(n, steps) == after_steps(after_step(n, steps[0]), rest),
{
}

/// A fresh link between two regions: each end is in the namespace of its own region's
/// router, and the ends are each other's peers.
#[verifier::rlimit(40)]
pub proof fn pairs_join_the_regions(
    n: Namespace,
    a: Seq<char>,
    b: Seq<char>,
    a_ns: Seq<char>,
    b_ns: Seq<char>,
)
    requires
        "vr-"@ + a + "-"@ + b != "vr-"@ + b + "-"@ + a,
    ensures
        ({
            let after = after_steps(n, pair_steps(a, b, a_ns, b_ns));
            let (x, y) = ("vr-"@ + a + "-"@ + b, "vr-"@ + b + "-"@ + a);
            &&& after.placed == n.placed.insert(x, a_ns).insert(y, b_ns)
            &&& after.peers == n.peers.insert(x, y).insert(y, x)
            &&& after.up == n.up
            &&& after.addrs == n.addrs && after.addrs_v6 == n.addrs_v6
            &&& after.routes == n.routes && after.routes_v6 == n.routes_v6
        }),
{
    let s = pair_steps(a, b, a_ns, b_ns);
    let after = after_steps(n, s);
    let n1 = after_step(n, s[0]);
    let n2 = after_step(n1, s[1]);
    let n3 = after_step(n2, s[2]);
    let n4 = after_step(n3, s[3]);
    one_step(n, s, seq![s[1], s[2], s[3]]);
    one_step(n1, seq![s[1], s[2], s[3]], seq![s[2], s[3]]);
    one_step(n2, seq![s[2], s[3]], seq![s[3]]);
    one_step(n3, seq![s[3]], Seq::empty());
    assert(after == n4);
    let (x, y) = ("vr-"@ + a + "-"@ + b, "vr-"@ + b + "-"@ + a);
    assert(n4.placed =~= n.placed.insert(x, a_ns).insert(y, b_ns));
}

/// One side of a link between regions: its end is up, with its own address in a network of
/// four and its own IPv6 address in one of four, and the other region's block,
/// `198.18.(16 * index).0` with 20 bits, and its IPv6 subnet are reached through the other side's addresses.
#[verifier::rlimit(40)]
pub proof fn sides_reach_each_other(
    n: Namespace,
    veth: Seq<char>,
    own: RegionSide,
    other: RegionSide,
)
    requires
        other.idx <= 15,
    ensures
        ({
            let after = after_steps(n, side_steps(veth, own, other));
            let block = Ipv4Addr::of(198, 18, other.idx * 16, 0);
            &&& after.up == n.up.insert(veth)
            &&& after.addrs == n.addrs.insert((veth, own.ip, 30))
            &&& after.addrs_v6 == n.addrs_v6.insert((veth, own.ip6, 126))
            &&& after.routes == n.routes.insert((block, 20), other.ip)
            &&& other.sub_v6 is Some ==> after.routes_v6 == n.routes_v6.insert(
                (other.sub_v6->0.addr, other.sub_v6->0.prefix_len),
                other.ip6,
            )
            &&& other.sub_v6 is None ==> after.routes_v6 == n.routes_v6
            &&& after.placed == n.placed && after.peers == n.peers
        }),
{
    let s = side_steps(veth, own, other);
    let n1 = after_step(n, s[0]);
    let n2 = after_step(n1, s[1]);
    let n3 = after_step(n2, s[2]);
    let n4 = after_step(n3, s[3]);
    if other.sub_v6 is Some {
        one_step(n, s, seq![s[1], s[2], s[3], s[4]]);
        one_step(n1, seq![s[1], s[2], s[3], s[4]], seq![s[2], s[3], s[4]]);
        one_step(n2, seq![s[2], s[3], s[4]], seq![s[3], s[4]]);
        one_step(n3, seq![s[3], s[4]], seq![s[4]]);
        one_step(n4, seq![s[4]], Seq::empty());
    } else {
        one_step(n, s, seq![s[1], s[2], s[3]]);
        one_step(n1, seq![s[1], s[2], s[3]], seq![s[2], s[3]]);
        one_step(n2, seq![s[2], s[3]], seq![s[3]]);
        one_step(n3, seq![s[3]], Seq::empty());
    }
}

/// A region that was added is reached through its router: its block of 20 bits, and its
/// IPv6 subnet where it has one.
pub proof fn regions_are_routed(
    n: Namespace,
    net: Ipv4Addr,
    via: Ipv4Addr,
    subnet_v6: Option<Ipv6Net>,
    via_v6: Ipv6Addr,
)
    ensures
        ({
            let after = after_steps(n, region_routes(net, via, subnet_v6, via_v6));
            &&& after.routes == n.routes.insert((net, 20), via)
            &&& subnet_v6 is Some ==> after.routes_v6 == n.routes_v6.insert(
                (subnet_v6->0.addr, subnet_v6->0.prefix_len),
                via_v6,
            )
            &&& subnet_v6 is None ==> after.routes_v6 == n.routes_v6
            &&& after == (Namespace {
                routes: after.routes,
                routes_v6: after.routes_v6,
                ..n
            })
        }),
{
    let s = region_routes(net, via, subnet_v6, via_v6);
    let n1 = after_step(n, s[0]);
    if subnet_v6 is Some {
        one_step(n, s, seq![s[1]]);
        one_step(n1, seq![s[1]], Seq::empty());
    } else {
        one_step(n, s, Seq::empty());
    }
}

/// An interface that is brought up is up, and has its link-local address in a network of
/// 64 bits, where it has one.
pub proof fn links_come_up(n: Namespace, ifname: Seq<char>, ll_v6: Option<Ipv6Addr>)
    ensures
        ({
            let after = after_steps(n, up_steps(ifname, ll_v6));
            &&& after.up == n.up.insert(ifname)
            &&& ll_v6 is Some ==> after.addrs_v6 == n.addrs_v6.insert((ifname, ll_v6->0, 64))
            &&& ll_v6 is None ==> after.addrs_v6 == n.addrs_v6
            &&& after == (Namespace { up: after.up, addrs_v6: after.addrs_v6, ..n })
            &&& up_steps(ifname, ll_v6)[0] == StepView::SetUp(ifname)
        }),
{
    let s = up_steps(ifname, ll_v6);
    let n1 = after_step(n, s[0]);
    if ll_v6 is Some {
        one_step(n, s, seq![s[1]]);
        one_step(n1, seq![s[1]], Seq::empty());
    } else {
        one_step(n, s, Seq::empty());
    }
}

/// An interface that is added to a running device as routed is wired to the router that
/// its configuration names, with the addresses that it asks for, and where it asks for
/// none with those of the router's downstream switch. Under router advertisements it gets
/// no static IPv6 gateway.
pub proof fn added_interfaces_are_wired(
    c: CoreView,
    device: NodeId,
    ifname: Seq<char>,
    config: IfaceConfig,
    lab_mode: Ipv6ProvisioningMode,
    router: NodeId,
)
    requires
        c.devices.contains_key(device),
        c.devices[device].wf(),
        c.next_id < u64::MAX,
        config.gateway == Some(router),
        c.routers.contains_key(router),
        c.routers[router].downlink is Some,
        c.switches.contains_key(c.routers[router].downlink->0),
        c.switches[c.routers[router].downlink->0].owner_router == Some(router),
    ensures
        ({
            let (after, r) = c.planned_add(device, ifname, config, lab_mode);
            let sw = c.routers[router].downlink->0;
            let s = c.switches[sw];
            let b = r->Ok_0;
            let mode = match c.devices[device].provisioning_mode {
                Some(m) => m,
                None => lab_mode,
            };
            &&& !lacks(c.devices[device], ifname) ==> r == Err::<BuildView, CoreError>(
                CoreError::DuplicateIface,
            ) && after == c
            &&& r is Ok <==> lacks(c.devices[device], ifname) && c.take_both(sw).1 is Ok
            &&& r is Ok ==> {
                &&& after == c.add_routed(device, ifname, router, config.egress).0
                &&& b.gw_ns == c.routers[router].ns
                &&& b.gw_ip == s.gw
                &&& mode == Ipv6ProvisioningMode::RaDriven ==> b.gw_ip_v6 is None
                &&& mode != Ipv6ProvisioningMode::RaDriven ==> b.gw_ip_v6 == s.gw_v6
                &&& b.dev_ns == c.devices[device].ns
                &&& b.ifname == ifname && b.idx == c.next_id
                &&& b.egress == config.egress && b.ingress == config.ingress
                &&& b.start_down == config.start_down
                &&& !b.dummy && !b.is_default
                &&& config.addr is Some ==> b.dev_ip == Some(config.addr->0.addr) && b.prefix_len
                    == config.addr->0.prefix_len
                &&& config.addr is None ==> b.dev_ip == (c.take_both(sw).1->Ok_0).0
                &&& config.addr_v6 is Some ==> b.dev_ip_v6 == Some(config.addr_v6->0.addr)
                    && b.prefix_len_v6 == config.addr_v6->0.prefix_len
                &&& config.addr_v6 is None ==> b.dev_ip_v6 == (c.take_both(sw).1->Ok_0).1
            }
        }),
{
    prepared_interface_leads_to_the_router(c, device, ifname, router, config.egress);
}

/// A dummy that is added to a running device has no gateway, and the addresses that its
/// configuration asks for; without them a network of 24 bits, or of 64 for IPv6.
pub proof fn added_dummies_are_wired(
    c: CoreView,
    device: NodeId,
    ifname: Seq<char>,
    config: IfaceConfig,
    lab_mode: Ipv6ProvisioningMode,
)
    requires
        c.devices.contains_key(device),
        c.devices[device].wf(),
        c.next_id < u64::MAX,
        config.gateway is None,
    ensures
        ({
            let (after, r) = c.planned_add(device, ifname, config, lab_mode);
            let b = r->Ok_0;
            &&& r is Ok <==> lacks(c.devices[device], ifname)
            &&& r is Ok ==> {
                &&& after == c.add_configured(device, ifname, config).0
                &&& b.dummy && !b.is_default
                &&& b.gw_ip is None && b.gw_ip_v6 is None && b.gw_ll_v6 is None
                &&& b.dev_ll_v6 is None
                &&& b.dev_ns == c.devices[device].ns
                &&& b.ifname == ifname && b.idx == c.next_id
                &&& b.egress == config.egress && b.ingress is None
                &&& b.start_down == config.start_down
                &&& config.addr is Some ==> b.dev_ip == Some(config.addr->0.addr) && b.prefix_len
                    == config.addr->0.prefix_len
                &&& config.addr is None ==> b.dev_ip is None && b.prefix_len == 24
                &&& config.addr_v6 is Some ==> b.dev_ip_v6 == Some(config.addr_v6->0.addr)
                    && b.prefix_len_v6 == config.addr_v6->0.prefix_len
                &&& config.addr_v6 is None ==> b.dev_ip_v6 is None && b.prefix_len_v6 == 64
            }
        }),
{
    configured_interface_follows_its_configuration(c, device, ifname, config);
}

} // verus!
