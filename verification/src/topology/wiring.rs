//! What has to be done in which namespace to wire links and routes.
use vstd::prelude::*;

use crate::addr::{Ipv4Addr, Ipv6Addr, Ipv6Net};
use crate::topology::plans::GatewayPlan;
use crate::topology::regions::{
    end_of, link_key, link_veth_name, region_base, region_net, BreakRegionSetup, LinkRegionsSetup,
    RegionPlan, RegionSide, RestoreRegionSetup,
};
use crate::topology::types::CoreView;

verus! {

/// Prefix length of a region's block.
pub const REGION_PREFIX: u8 = 20;

/// Prefix length of a link between regions.
pub const LINK_PREFIX: u8 = 30;

/// IPv6 prefix length of a link between regions.
pub const LINK_PREFIX_V6: u8 = 126;

/// One step in a namespace.
#[derive(Debug)]
pub enum NetStep {
    /// Delete a link, where it is there.
    DeleteLink {
        /// The link.
        link: String,
    },
    /// Create a veth pair.
    AddVeth {
        /// One end.
        link: String,
        /// The other end.
        peer: String,
    },
    /// Move a link to another namespace.
    MoveLink {
        /// The link.
        link: String,
        /// The namespace.
        ns: String,
    },
    /// Bring a link up.
    SetUp {
        /// The link.
        link: String,
    },
    /// Add an address.
    AddAddr4 {
        /// The link.
        link: String,
        /// The address.
        ip: Ipv4Addr,
        /// Its prefix length.
        prefix_len: u8,
    },
    /// Remove an address.
    DelAddr4 {
        /// The link.
        link: String,
        /// The address.
        ip: Ipv4Addr,
        /// Its prefix length.
        prefix_len: u8,
    },
    /// Add an IPv6 address.
    AddAddr6 {
        /// The link.
        link: String,
        /// The address.
        ip: Ipv6Addr,
        /// Its prefix length.
        prefix_len: u8,
    },
    /// Add a route.
    AddRoute4 {
        /// Destination.
        dst: Ipv4Addr,
        /// Its prefix length.
        prefix_len: u8,
        /// Gateway.
        via: Ipv4Addr,
    },
    /// Add a route in place of the one that is there.
    ReplaceRoute4 {
        /// Destination.
        dst: Ipv4Addr,
        /// Its prefix length.
        prefix_len: u8,
        /// Gateway.
        via: Ipv4Addr,
    },
    /// Add an IPv6 route.
    AddRoute6 {
        /// Destination.
        dst: Ipv6Addr,
        /// Its prefix length.
        prefix_len: u8,
        /// Gateway.
        via: Ipv6Addr,
    },
    /// Send the default route through a link.
    ReplaceDefault4 {
        /// The link.
        link: String,
        /// Gateway.
        via: Ipv4Addr,
    },
    /// Send the IPv6 default route through a link, or have none.
    SetDefault6 {
        /// The link.
        link: String,
        /// Gateway.
        via: Option<Ipv6Addr>,
    },
}

/// One step in a namespace.
pub enum StepView {
    /// Delete a link, where it is there.
    DeleteLink(Seq<char>),
    /// Create a veth pair.
    AddVeth(Seq<char>, Seq<char>),
    /// Move a link to another namespace.
    MoveLink(Seq<char>, Seq<char>),
    /// Bring a link up.
    SetUp(Seq<char>),
    /// Add an address.
    AddAddr4(Seq<char>, Ipv4Addr, u8),
    /// Remove an address.
    DelAddr4(Seq<char>, Ipv4Addr, u8),
    /// Add an IPv6 address.
    AddAddr6(Seq<char>, Ipv6Addr, u8),
    /// Add a route.
    AddRoute4(Ipv4Addr, u8, Ipv4Addr),
    /// Add a route in place of the one that is there.
    ReplaceRoute4(Ipv4Addr, u8, Ipv4Addr),
    /// Add an IPv6 route.
    AddRoute6(Ipv6Addr, u8, Ipv6Addr),
    /// Send the default route through a link.
    ReplaceDefault4(Seq<char>, Ipv4Addr),
    /// Send the IPv6 default route through a link, or have none.
    SetDefault6(Seq<char>, Option<Ipv6Addr>),
}

impl View for NetStep {
    type V = StepView;

    open spec fn view(&self) -> StepView {
        match self {
            NetStep::DeleteLink { link } => StepView::DeleteLink(link@),
            NetStep::AddVeth { link, peer } => StepView::AddVeth(link@, peer@),
            NetStep::MoveLink { link, ns } => StepView::MoveLink(link@, ns@),
            NetStep::SetUp { link } => StepView::SetUp(link@),
            NetStep::AddAddr4 { link, ip, prefix_len } => StepView::AddAddr4(
                link@,
                *ip,
                *prefix_len,
            ),
            NetStep::DelAddr4 { link, ip, prefix_len } => StepView::DelAddr4(
                link@,
                *ip,
                *prefix_len,
            ),
            NetStep::AddAddr6 { link, ip, prefix_len } => StepView::AddAddr6(
                link@,
                *ip,
                *prefix_len,
            ),
            NetStep::AddRoute4 { dst, prefix_len, via } => StepView::AddRoute4(
                *dst,
                *prefix_len,
                *via,
            ),
            NetStep::ReplaceRoute4 { dst, prefix_len, via } => StepView::ReplaceRoute4(
                *dst,
                *prefix_len,
                *via,
            ),
            NetStep::AddRoute6 { dst, prefix_len, via } => StepView::AddRoute6(
                *dst,
                *prefix_len,
                *via,
            ),
            NetStep::ReplaceDefault4 { link, via } => StepView::ReplaceDefault4(link@, *via),
            NetStep::SetDefault6 { link, via } => StepView::SetDefault6(link@, *via),
        }
    }
}

/// The views of a list of steps.
pub open spec fn step_views(v: Seq<NetStep>) -> Seq<StepView> {
    Seq::new(v.len(), |i: int| v[i]@)
}

/// The veth name of region `a` on its link to region `b`.
pub open spec fn veth_name(a: Seq<char>, b: Seq<char>) -> Seq<char> {
    "vr-"@ + a + "-"@ + b
}

/// Creating the veth pair of a link between regions, in the root namespace.
pub open spec fn pair_steps(
    a: Seq<char>,
    b: Seq<char>,
    a_ns: Seq<char>,
    b_ns: Seq<char>,
) -> Seq<StepView> {
    seq![
        StepView::DeleteLink(veth_name(a, b)),
        StepView::AddVeth(veth_name(a, b), veth_name(b, a)),
        StepView::MoveLink(veth_name(a, b), a_ns),
        StepView::MoveLink(veth_name(b, a), b_ns),
    ]
}

/// Setting up one side of a link between regions: its addresses, then the
/// routes to the other region's block and subnet.
pub open spec fn side_steps(veth: Seq<char>, own: RegionSide, other: RegionSide) -> Seq<StepView> {
    let head = seq![
        StepView::AddAddr4(veth, own.ip, LINK_PREFIX),
        StepView::AddAddr6(veth, own.ip6, LINK_PREFIX_V6),
        StepView::SetUp(veth),
        StepView::AddRoute4(region_net(other.idx), REGION_PREFIX, other.ip),
    ];
    match other.sub_v6 {
        Some(net) => head.push(StepView::AddRoute6(net.addr, net.prefix_len, other.ip6)),
        None => head,
    }
}

fn one_side(veth: String, own: &RegionSide, other: &RegionSide) -> (r: Vec<NetStep>)
    ensures
        step_views(r@) == side_steps(veth@, *own, *other),
{
    let mut steps: Vec<NetStep> = Vec::new();
    steps.push(NetStep::AddAddr4 { link: veth.clone(), ip: own.ip, prefix_len: LINK_PREFIX });
    steps.push(NetStep::AddAddr6 { link: veth.clone(), ip: own.ip6, prefix_len: LINK_PREFIX_V6 });
    let ghost name = veth@;
    steps.push(NetStep::SetUp { link: veth });
    steps.push(
        NetStep::AddRoute4 {
            dst: region_base(other.idx),
            prefix_len: REGION_PREFIX,
            via: other.ip,
        },
    );
    if let Some(net) = other.sub_v6 {
        steps.push(
            NetStep::AddRoute6 { dst: net.addr, prefix_len: net.prefix_len, via: other.ip6 },
        );
    }
    assert(step_views(steps@) =~= side_steps(name, *own, *other));
    steps
}

/// The steps that wire a link between regions: in the root namespace, in that
/// of the first region's router, and in that of the second's.
pub fn link_region_steps(s: &LinkRegionsSetup, a_name: &str, b_name: &str) -> (r: (
    Vec<NetStep>,
    Vec<NetStep>,
    Vec<NetStep>,
))
    ensures
        step_views(r.0@) == pair_steps(a_name@, b_name@, s.a.ns@, s.b.ns@),
        step_views(r.1@) == side_steps(veth_name(a_name@, b_name@), s.a, s.b),
        step_views(r.2@) == side_steps(veth_name(b_name@, a_name@), s.b, s.a),
{
    let veth_a = link_veth_name(a_name, b_name);
    let veth_b = link_veth_name(b_name, a_name);
    let mut root: Vec<NetStep> = Vec::new();
    root.push(NetStep::DeleteLink { link: veth_a.clone() });
    root.push(NetStep::AddVeth { link: veth_a.clone(), peer: veth_b.clone() });
    root.push(NetStep::MoveLink { link: veth_a.clone(), ns: s.a.ns.clone() });
    root.push(NetStep::MoveLink { link: veth_b.clone(), ns: s.b.ns.clone() });
    assert(step_views(root@) =~= pair_steps(a_name@, b_name@, s.a.ns@, s.b.ns@));
    (root, one_side(veth_a, &s.a, &s.b), one_side(veth_b, &s.b, &s.a))
}

/// The step that sends the traffic to a region's block over a gateway.
fn region_route(idx: u8, via: Ipv4Addr) -> (r: NetStep)
    ensures
        r@ == StepView::ReplaceRoute4(region_net(idx), REGION_PREFIX, via),
{
    NetStep::ReplaceRoute4 { dst: region_base(idx), prefix_len: REGION_PREFIX, via }
}

/// The steps that route around a broken link: in the namespace of the first
/// region's router, and in that of the second's.
pub fn break_region_steps(s: &BreakRegionSetup, a_idx: u8, b_idx: u8) -> (r: (NetStep, NetStep))
    ensures
        r.0@ == StepView::ReplaceRoute4(region_net(b_idx), REGION_PREFIX, s.m_ip_on_ma),
        r.1@ == StepView::ReplaceRoute4(region_net(a_idx), REGION_PREFIX, s.m_ip_on_mb),
{
    (region_route(b_idx, s.m_ip_on_ma), region_route(a_idx, s.m_ip_on_mb))
}

/// The steps that route over a link again: in the namespace of the first
/// region's router, and in that of the second's.
pub fn restore_region_steps(s: &RestoreRegionSetup, a_idx: u8, b_idx: u8) -> (r: (
    NetStep,
    NetStep,
))
    ensures
        r.0@ == StepView::ReplaceRoute4(region_net(b_idx), REGION_PREFIX, s.b_direct_ip),
        r.1@ == StepView::ReplaceRoute4(region_net(a_idx), REGION_PREFIX, s.a_direct_ip),
{
    (region_route(b_idx, s.b_direct_ip), region_route(a_idx, s.a_direct_ip))
}

/// The routes to a region, in the root namespace.
pub open spec fn region_routes(
    net: Ipv4Addr,
    via: Ipv4Addr,
    subnet_v6: Option<Ipv6Net>,
    via_v6: Ipv6Addr,
) -> Seq<StepView> {
    let head = seq![StepView::AddRoute4(net, REGION_PREFIX, via)];
    match subnet_v6 {
        Some(n) => head.push(StepView::AddRoute6(n.addr, n.prefix_len, via_v6)),
        None => head,
    }
}

/// The steps that route to a region that was added, in the root namespace.
pub fn add_region_steps(p: &RegionPlan) -> (r: Vec<NetStep>)
    ensures
        step_views(r@) == region_routes(p.region_net, p.via, p.subnet_v6, p.via_v6),
{
    let mut steps: Vec<NetStep> = Vec::new();
    steps.push(NetStep::AddRoute4 { dst: p.region_net, prefix_len: REGION_PREFIX, via: p.via });
    if let Some(n) = p.subnet_v6 {
        steps.push(NetStep::AddRoute6 { dst: n.addr, prefix_len: n.prefix_len, via: p.via_v6 });
    }
    assert(step_views(steps@) =~= region_routes(p.region_net, p.via, p.subnet_v6, p.via_v6));
    steps
}

/// The steps that send the default routes of a device through an interface.
pub fn default_route_steps(ifname: &str, g: &GatewayPlan) -> (r: Vec<NetStep>)
    ensures
        step_views(r@) == seq![
            StepView::ReplaceDefault4(ifname@, g.gw_ip),
            StepView::SetDefault6(ifname@, g.primary_v6),
        ],
{
    let mut steps: Vec<NetStep> = Vec::new();
    steps.push(NetStep::ReplaceDefault4 { link: ifname.to_owned(), via: g.gw_ip });
    steps.push(NetStep::SetDefault6 { link: ifname.to_owned(), via: g.primary_v6 });
    assert(step_views(steps@) =~= seq![
        StepView::ReplaceDefault4(ifname@, g.gw_ip),
        StepView::SetDefault6(ifname@, g.primary_v6),
    ]);
    steps
}

/// Bringing an interface up: the kernel has dropped its link-local address.
pub open spec fn up_steps(ifname: Seq<char>, ll_v6: Option<Ipv6Addr>) -> Seq<StepView> {
    match ll_v6 {
        Some(ll) => seq![StepView::SetUp(ifname), StepView::AddAddr6(ifname, ll, 64)],
        None => seq![StepView::SetUp(ifname)],
    }
}

/// The steps that bring an interface up.
pub fn link_up_steps(ifname: &str, ll_v6: Option<Ipv6Addr>) -> (r: Vec<NetStep>)
    ensures
        step_views(r@) == up_steps(ifname@, ll_v6),
{
    let mut steps: Vec<NetStep> = Vec::new();
    steps.push(NetStep::SetUp { link: ifname.to_owned() });
    if let Some(ip) = ll_v6 {
        steps.push(NetStep::AddAddr6 { link: ifname.to_owned(), ip, prefix_len: 64 });
    }
    assert(step_views(steps@) =~= up_steps(ifname@, ll_v6));
    steps
}

/// The steps that give an interface another address.
pub fn renew_steps(ifname: &str, old_ip: Ipv4Addr, new_ip: Ipv4Addr, prefix_len: u8) -> (r: Vec<
    NetStep,
>)
    ensures
        step_views(r@) == seq![
            StepView::DelAddr4(ifname@, old_ip, prefix_len),
            StepView::AddAddr4(ifname@, new_ip, prefix_len),
        ],
{
    let mut steps: Vec<NetStep> = Vec::new();
    steps.push(NetStep::DelAddr4 { link: ifname.to_owned(), ip: old_ip, prefix_len });
    steps.push(NetStep::AddAddr4 { link: ifname.to_owned(), ip: new_ip, prefix_len });
    assert(step_views(steps@) =~= seq![
        StepView::DelAddr4(ifname@, old_ip, prefix_len),
        StepView::AddAddr4(ifname@, new_ip, prefix_len),
    ]);
    steps
}

/// The ends of a fresh link, as they are looked up to restore it, are those that
/// the regions got.
pub proof fn fresh_ends_are_found(c: CoreView, a: Seq<char>, b: Seq<char>)
    requires
        a != b,
        c.linked(a, b).1 is Ok,
    ensures
        ({
            let (after, r) = c.linked(a, b);
            let key = link_key(a, b);
            end_of(key, after.links[key], b) == r->Ok_0.1 && end_of(key, after.links[key], a)
                == r->Ok_0.0
        }),
{
    crate::text::text_lt_is_total(a, b);
}

} // verus!
