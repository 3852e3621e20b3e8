//! Regions and the links between them.
use vstd::prelude::*;

use crate::addr::{Ipv4Addr, Ipv4Net, Ipv6Addr, Ipv6Net};
use crate::nat_config::{IpSupport, NatV6Mode};
use crate::table::key_has_place;
use crate::text::{str_eq, str_lt, text_lt, text_lt_is_total};
use crate::topology::nodes::fresh_switch;
use crate::topology::types::{
    CoreError, CoreView, DownstreamPool, LinkKey, NetworkCore, NodeId, RegionInfo, RegionLinkData,
    SwitchView,
};

verus! {

/// Handle for a region.
#[derive(Debug)]
pub struct Region {
    /// Region name.
    pub name: String,
    /// Region index.
    pub idx: u8,
    /// The region's router.
    pub router_id: NodeId,
}

impl Region {
    /// Region name (e.g. "us", "eu").
    pub fn name(&self) -> (r: &str)
        ensures
            r@ == self.name@,
    {
        self.name.as_str()
    }

    /// The underlying region router's node ID.
    pub fn router_id(&self) -> (r: NodeId)
        ensures
            r == self.router_id,
    {
        self.router_id
    }
}

/// The three regions that a lab can be given in one go.
#[derive(Debug)]
pub struct DefaultRegions {
    /// US region.
    pub us: Region,
    /// EU region.
    pub eu: Region,
    /// Asia region.
    pub asia: Region,
}

/// The names and one-way latencies (ms) of the default regions' links: us-eu,
/// us-asia, eu-asia.
pub fn default_links() -> (r: Vec<(&'static str, &'static str, u32)>)
    ensures
        r@.len() == 3,
        r@[0].0@ == "us"@ && r@[0].1@ == "eu"@ && r@[0].2 == 40,
        r@[1].0@ == "us"@ && r@[1].1@ == "asia"@ && r@[1].2 == 95,
        r@[2].0@ == "eu"@ && r@[2].1@ == "asia"@ && r@[2].2 == 120,
{
    let mut out: Vec<(&'static str, &'static str, u32)> = Vec::new();
    out.push(("us", "eu", 40));
    out.push(("us", "asia", 95));
    out.push(("eu", "asia", 120));
    out
}

/// The base of a region's /20 block: the blocks follow one another from
/// `198.18.0.0` on, so that the sixteenth region has `198.19.0.0`.
pub open spec fn region_net(idx: u8) -> Ipv4Addr {
    Ipv4Addr { bits: (0xc612_0000 + idx * 4096) as u32 }
}

/// The base of a region's /20 block.
pub fn region_base(idx: u8) -> (r: Ipv4Addr)
    ensures
        r == region_net(idx),
{
    Ipv4Addr { bits: 0xc612_0000 + idx as u32 * 4096 }
}

/// The veth name of region `a` on its link to region `b`.
pub fn link_veth_name(a: &str, b: &str) -> (r: String)
    ensures
        r@ == "vr-"@ + a@ + "-"@ + b@,
{
    let mut s = "vr-".to_owned();
    s.append(a);
    s.append("-");
    s.append(b);
    s
}

/// The key of a link: the smaller name first.
pub open spec fn link_key(a: Seq<char>, b: Seq<char>) -> (Seq<char>, Seq<char>) {
    if text_lt(a, b) {
        (a, b)
    } else {
        (b, a)
    }
}

/// A link has one key, whichever end is named first.
pub proof fn link_key_is_symmetric(a: Seq<char>, b: Seq<char>)
    ensures
        link_key(a, b) == link_key(b, a),
{
    text_lt_is_total(a, b);
    text_lt_is_total(b, a);
}

/// The key of a link: the smaller name first.
pub fn region_link_key(a: &str, b: &str) -> (r: LinkKey)
    ensures
        r@ == link_key(a@, b@),
{
    if str_lt(a, b) {
        LinkKey { a: a.to_owned(), b: b.to_owned() }
    } else {
        LinkKey { a: b.to_owned(), b: a.to_owned() }
    }
}

/// One side of a link between regions.
#[derive(Debug)]
pub struct RegionSide {
    /// Namespace of the region's router.
    pub ns: String,
    /// Region index.
    pub idx: u8,
    /// Address on the link.
    pub ip: Ipv4Addr,
    /// IPv6 address on the link.
    pub ip6: Ipv6Addr,
    /// IPv6 subnet behind the region's router.
    pub sub_v6: Option<Ipv6Net>,
}

/// What is needed to set up a link between regions.
#[derive(Debug)]
pub struct LinkRegionsSetup {
    /// The first region's side.
    pub a: RegionSide,
    /// The second region's side.
    pub b: RegionSide,
    /// Root namespace.
    pub root_ns: String,
}

/// What is needed to route around a link.
#[derive(Debug)]
pub struct BreakRegionSetup {
    /// Namespace of the first region's router.
    pub a_ns: String,
    /// Namespace of the second region's router.
    pub b_ns: String,
    /// The link.
    pub link_key: LinkKey,
    /// The third region's address on its link to the first.
    pub m_ip_on_ma: Ipv4Addr,
    /// The third region's address on its link to the second.
    pub m_ip_on_mb: Ipv4Addr,
}

/// What is needed to route over a link again.
#[derive(Debug)]
pub struct RestoreRegionSetup {
    /// Namespace of the first region's router.
    pub a_ns: String,
    /// Namespace of the second region's router.
    pub b_ns: String,
    /// The link.
    pub link_key: LinkKey,
    /// The second region's address on the link.
    pub b_direct_ip: Ipv4Addr,
    /// The first region's address on the link.
    pub a_direct_ip: Ipv4Addr,
}

/// The address of region `x` on the link with that key.
pub open spec fn end_of(key: (Seq<char>, Seq<char>), link: RegionLinkData, x: Seq<char>) -> Ipv4Addr {
    if key.0 == x {
        link.ip_a
    } else {
        link.ip_b
    }
}

/// The address of the region across from `x` on the link with that key.
pub open spec fn far_end_of(
    key: (Seq<char>, Seq<char>),
    link: RegionLinkData,
    x: Seq<char>,
) -> Ipv4Addr {
    if key.0 == x {
        link.ip_b
    } else {
        link.ip_a
    }
}

impl CoreView {
    /// The router of a region is there, where there is such a region.
    pub open spec fn region_backed(self, name: Seq<char>) -> bool {
        self.regions.contains_key(name) ==> self.routers.contains_key(
            self.regions[name].router_id,
        )
    }

    /// Every region's router is there.
    pub open spec fn regions_backed(self) -> bool {
        forall|n: Seq<char>| #[trigger] self.region_backed(n)
    }

    /// The namespace of a region's router.
    pub open spec fn region_ns(self, name: Seq<char>) -> Seq<char> {
        self.routers[self.regions[name].router_id].ns
    }

    /// The IPv6 subnet behind a region's router.
    pub open spec fn region_v6(self, name: Seq<char>) -> Option<Ipv6Net> {
        match self.routers[self.regions[name].router_id].downlink {
            Some(sw) => if self.switches.contains_key(sw) {
                self.switches[sw].cidr_v6
            } else {
                None
            },
            None => None,
        }
    }

    /// Both regions are there and no link is between them.
    pub open spec fn linkable(self, a: Seq<char>, b: Seq<char>) -> bool {
        !self.links.contains_key(link_key(a, b)) && self.regions.contains_key(a)
            && self.regions.contains_key(b)
    }

    /// Linking two regions: the addresses go to the names in the order given,
    /// and are kept in the order of the key.
    pub open spec fn linked(self, a: Seq<char>, b: Seq<char>) -> (
        CoreView,
        Result<(Ipv4Addr, Ipv4Addr, Ipv6Addr, Ipv6Addr), CoreError>,
    ) {
        let key = link_key(a, b);
        if self.links.contains_key(key) {
            (self, Err(CoreError::AlreadyLinked))
        } else if !self.regions.contains_key(a) || !self.regions.contains_key(b) {
            (self, Err(CoreError::UnknownRegion))
        } else {
            let (c1, v4) = self.alloc_link();
            match v4 {
                Err(e) => (c1, Err(e)),
                Ok((ip_a, ip_b)) => {
                    let (c2, v6) = c1.alloc_link_v6();
                    match v6 {
                        Err(e) => (c2, Err(e)),
                        Ok((ip6_a, ip6_b)) => {
                            let link = RegionLinkData {
                                ip_a: if text_lt(a, b) {
                                    ip_a
                                } else {
                                    ip_b
                                },
                                ip_b: if text_lt(a, b) {
                                    ip_b
                                } else {
                                    ip_a
                                },
                                broken: false,
                            };
                            (
                                CoreView { links: c2.links.insert(key, link), ..c2 },
                                Ok((ip_a, ip_b, ip6_a, ip6_b)),
                            )
                        },
                    }
                },
            }
        }
    }

    /// Whether two regions have a link that is not broken.
    pub open spec fn link_up(self, a: Seq<char>, b: Seq<char>) -> bool {
        self.links.contains_key(link_key(a, b)) && !self.links[link_key(a, b)].broken
    }

    /// Whether traffic between two regions can go through a third one.
    pub open spec fn detour(self, m: Seq<char>, a: Seq<char>, b: Seq<char>) -> bool {
        self.regions.contains_key(m) && m != a && m != b && self.link_up(m, a) && self.link_up(
            m,
            b,
        )
    }

    /// Why a link between two regions cannot be broken or restored.
    pub open spec fn link_problem(self, a: Seq<char>, b: Seq<char>, broken: bool) -> Option<
        CoreError,
    > {
        if !self.links.contains_key(link_key(a, b)) {
            Some(CoreError::NoLink)
        } else if self.links[link_key(a, b)].broken != broken {
            Some(
                if broken {
                    CoreError::NotBroken
                } else {
                    CoreError::AlreadyBroken
                },
            )
        } else if !self.regions.contains_key(a) || !self.regions.contains_key(b) {
            Some(CoreError::UnknownRegion)
        } else {
            None
        }
    }

    /// The topology with a link marked as broken or not, where there is one.
    pub open spec fn marked(self, key: (Seq<char>, Seq<char>), broken: bool) -> CoreView {
        if self.links.contains_key(key) {
            CoreView {
                links: self.links.insert(key, RegionLinkData { broken, ..self.links[key] }),
                ..self
            }
        } else {
            self
        }
    }
}

/// Breaking a link and restoring it leaves the topology as it was.
pub proof fn restoring_undoes_breaking(c: CoreView, a: Seq<char>, b: Seq<char>)
    requires
        c.link_up(a, b),
    ensures
        c.marked(link_key(a, b), true).link_problem(a, b, false) == Some(
            CoreError::AlreadyBroken,
        ),
        c.marked(link_key(a, b), true).marked(link_key(a, b), false) == c,
{
    let key = link_key(a, b);
    assert(c.marked(key, true).marked(key, false).links =~= c.links);
}

impl NetworkCore {
    fn region_side(&self, info: RegionInfo, ip: Ipv4Addr, ip6: Ipv6Addr) -> (r: RegionSide)
        requires
            self.wf(),
            self@.routers.contains_key(info.router_id),
        ensures
            r.ns@ == self@.routers[info.router_id].ns,
            r.idx == info.idx,
            r.ip == ip,
            r.ip6 == ip6,
            r.sub_v6 == (match self@.routers[info.router_id].downlink {
                Some(sw) => if self@.switches.contains_key(sw) {
                    self@.switches[sw].cidr_v6
                } else {
                    None
                },
                None => None,
            }),
    {
        let router = self.routers.get(&info.router_id).unwrap();
        let sub_v6 = match router.downlink {
            Some(sw) => match self.switches.get(&sw) {
                Some(s) => s.cidr_v6,
                None => None,
            },
            None => None,
        };
        RegionSide { ns: router.ns.clone(), idx: info.idx, ip, ip6, sub_v6 }
    }

    /// Registers a link between two regions and returns what is needed to set
    /// it up.
    pub fn prepare_link_regions(&mut self, a_name: &str, b_name: &str) -> (r: Result<
        LinkRegionsSetup,
        CoreError,
    >)
        requires
            old(self).wf(),
            old(self)@.linkable(a_name@, b_name@) ==> old(self)@.region_backed(a_name@)
                && old(self)@.region_backed(b_name@),
        ensures
            final(self).wf(),
            final(self)@ == old(self)@.linked(a_name@, b_name@).0,
            match r {
                Ok(s) => {
                    let c = old(self)@;
                    &&& c.linked(a_name@, b_name@).1 == Ok::<
                        (Ipv4Addr, Ipv4Addr, Ipv6Addr, Ipv6Addr),
                        CoreError,
                    >((s.a.ip, s.b.ip, s.a.ip6, s.b.ip6))
                    &&& s.a.ns@ == c.region_ns(a_name@)
                    &&& s.b.ns@ == c.region_ns(b_name@)
                    &&& s.a.idx == c.regions[a_name@].idx
                    &&& s.b.idx == c.regions[b_name@].idx
                    &&& s.a.sub_v6 == c.region_v6(a_name@)
                    &&& s.b.sub_v6 == c.region_v6(b_name@)
                    &&& s.root_ns@ == c.cfg.root_ns@
                },
                Err(e) => old(self)@.linked(a_name@, b_name@).1 == Err::<
                    (Ipv4Addr, Ipv4Addr, Ipv6Addr, Ipv6Addr),
                    CoreError,
                >(e),
            },
    {
        let key = region_link_key(a_name, b_name);
        if self.region_links.contains_key(&key) {
            return Err(CoreError::AlreadyLinked);
        }
        let a_info = match self.regions.get(&a_name.to_owned()) {
            None => {
                return Err(CoreError::UnknownRegion);
            },
            Some(x) => *x,
        };
        let b_info = match self.regions.get(&b_name.to_owned()) {
            None => {
                return Err(CoreError::UnknownRegion);
            },
            Some(x) => *x,
        };
        assert(self@.regions.contains_key(a_name@) && self@.regions.contains_key(b_name@));
        let (ip_a, ip_b) = match self.alloc_interregion_ips() {
            Ok(x) => x,
            Err(e) => {
                return Err(e);
            },
        };
        let (ip6_a, ip6_b) = match self.alloc_interregion_ips_v6() {
            Ok(x) => x,
            Err(e) => {
                return Err(e);
            },
        };
        let first = str_lt(a_name, b_name);
        let link = RegionLinkData {
            ip_a: if first {
                ip_a
            } else {
                ip_b
            },
            ip_b: if first {
                ip_b
            } else {
                ip_a
            },
            broken: false,
        };
        self.region_links.insert(key, link);
        let a = self.region_side(a_info, ip_a, ip6_a);
        let b = self.region_side(b_info, ip_b, ip6_b);
        Ok(LinkRegionsSetup { a, b, root_ns: self.cfg.root_ns.clone() })
    }

    fn up_link(&self, a: &str, b: &str) -> (r: Option<RegionLinkData>)
        requires
            self.wf(),
        ensures
            match r {
                Some(l) => self@.link_up(a@, b@) && l == self@.links[link_key(a@, b@)],
                None => !self@.link_up(a@, b@),
            },
    {
        match self.region_links.get(&region_link_key(a, b)) {
            Some(l) => if l.broken {
                None
            } else {
                Some(*l)
            },
            None => None,
        }
    }

    fn region_router_ns(&self, name: &str) -> (r: String)
        requires
            self.wf(),
            self@.regions.contains_key(name@),
            self@.region_backed(name@),
        ensures
            r@ == self@.region_ns(name@),
    {
        let info = self.regions.get(&name.to_owned()).unwrap();
        self.routers.get(&info.router_id).unwrap().ns.clone()
    }

    /// Finds a region over which a link can be routed around.
    pub fn find_detour(&self, a_name: &str, b_name: &str) -> (r: Option<String>)
        requires
            self.wf(),
        ensures
            match r {
                Some(m) => self@.detour(m@, a_name@, b_name@),
                None => forall|m: Seq<char>| !self@.detour(m, a_name@, b_name@),
            },
    {
        let n = self.regions.len();
        let mut i: usize = 0;
        while i < n
            invariant
                self.wf(),
                i <= n,
                n == self.regions.pairs().len(),
                forall|j: int|
                    0 <= j < i ==> !self@.detour(
                        (#[trigger] self.regions.pairs()[j]).0,
                        a_name@,
                        b_name@,
                    ),
            decreases n - i,
        {
            let (name, _) = self.regions.at(i);
            if !str_eq(name.as_str(), a_name) && !str_eq(name.as_str(), b_name) && self.up_link(
                name.as_str(),
                a_name,
            ).is_some() && self.up_link(name.as_str(), b_name).is_some() {
                return Some(name.clone());
            }
            i += 1;
        }
        proof {
            assert forall|m: Seq<char>| !self@.detour(m, a_name@, b_name@) by {
                if self@.detour(m, a_name@, b_name@) {
                    let k = key_has_place(self.regions, m);
                    assert(self.regions.pairs()[k].0 == m);
                }
            }
        }
        None
    }

    /// Checks that a link can be routed around and returns what is needed for
    /// it. The link is marked once the routes are in place.
    pub fn prepare_break_region_link(&self, a_name: &str, b_name: &str) -> (r: Result<
        BreakRegionSetup,
        CoreError,
    >)
        requires
            self.wf(),
            self@.link_problem(a_name@, b_name@, false) is None && (exists|m: Seq<char>|
                self@.detour(m, a_name@, b_name@)) ==> self@.region_backed(a_name@)
                && self@.region_backed(b_name@),
        ensures
            match self@.link_problem(a_name@, b_name@, false) {
                Some(e) => r is Err && r->Err_0 == e,
                None => {
                    &&& r is Ok <==> exists|m: Seq<char>| self@.detour(m, a_name@, b_name@)
                    &&& r is Err ==> r->Err_0 == CoreError::NoDetour
                    &&& r is Ok ==> r->Ok_0.a_ns@ == self@.region_ns(a_name@)
                    &&& r is Ok ==> r->Ok_0.b_ns@ == self@.region_ns(b_name@)
                    &&& r is Ok ==> r->Ok_0.link_key@ == link_key(a_name@, b_name@)
                    &&& r is Ok ==> exists|m: Seq<char>|
                        {
                            let ma = link_key(m, a_name@);
                            let mb = link_key(m, b_name@);
                            &&& #[trigger] self@.detour(m, a_name@, b_name@)
                            &&& r->Ok_0.m_ip_on_ma == far_end_of(ma, self@.links[ma], a_name@)
                            &&& r->Ok_0.m_ip_on_mb == far_end_of(mb, self@.links[mb], b_name@)
                        }
                },
            },
    {
        let link_key = region_link_key(a_name, b_name);
        match self.region_links.get(&link_key) {
            None => {
                return Err(CoreError::NoLink);
            },
            Some(link) => {
                if link.broken {
                    return Err(CoreError::AlreadyBroken);
                }
            },
        }
        if !self.regions.contains_key(&a_name.to_owned()) || !self.regions.contains_key(
            &b_name.to_owned(),
        ) {
            return Err(CoreError::UnknownRegion);
        }
        let m_name = match self.find_detour(a_name, b_name) {
            None => {
                return Err(CoreError::NoDetour);
            },
            Some(m) => m,
        };
        let m = m_name.as_str();
        let key_ma = region_link_key(m, a_name);
        let key_mb = region_link_key(m, b_name);
        let link_ma = self.up_link(m, a_name).unwrap();
        let link_mb = self.up_link(m, b_name).unwrap();
        let m_ip_on_ma = if str_eq(key_ma.a.as_str(), a_name) {
            link_ma.ip_b
        } else {
            link_ma.ip_a
        };
        let m_ip_on_mb = if str_eq(key_mb.a.as_str(), b_name) {
            link_mb.ip_b
        } else {
            link_mb.ip_a
        };
        let a_ns = self.region_router_ns(a_name);
        let b_ns = self.region_router_ns(b_name);
        Ok(BreakRegionSetup { a_ns, b_ns, link_key, m_ip_on_ma, m_ip_on_mb })
    }

    /// Checks that a link is broken and returns what is needed to route over it
    /// again. The link is marked once the routes are in place.
    pub fn prepare_restore_region_link(&self, a_name: &str, b_name: &str) -> (r: Result<
        RestoreRegionSetup,
        CoreError,
    >)
        requires
            self.wf(),
            self@.link_problem(a_name@, b_name@, true) is None ==> self@.region_backed(a_name@)
                && self@.region_backed(b_name@),
        ensures
            match self@.link_problem(a_name@, b_name@, true) {
                Some(e) => r is Err && r->Err_0 == e,
                None => {
                    let key = link_key(a_name@, b_name@);
                    &&& r is Ok
                    &&& r->Ok_0.a_ns@ == self@.region_ns(a_name@)
                    &&& r->Ok_0.b_ns@ == self@.region_ns(b_name@)
                    &&& r->Ok_0.link_key@ == key
                    &&& r->Ok_0.b_direct_ip == far_end_of(key, self@.links[key], a_name@)
                    &&& r->Ok_0.a_direct_ip == end_of(key, self@.links[key], a_name@)
                },
            },
    {
        let link_key = region_link_key(a_name, b_name);
        let link = match self.region_links.get(&link_key) {
            None => {
                return Err(CoreError::NoLink);
            },
            Some(link) => *link,
        };
        if !link.broken {
            return Err(CoreError::NotBroken);
        }
        if !self.regions.contains_key(&a_name.to_owned()) || !self.regions.contains_key(
            &b_name.to_owned(),
        ) {
            return Err(CoreError::UnknownRegion);
        }
        let a_ns = self.region_router_ns(a_name);
        let b_ns = self.region_router_ns(b_name);
        let (b_direct_ip, a_direct_ip) = if str_eq(link_key.a.as_str(), a_name) {
            (link.ip_b, link.ip_a)
        } else {
            (link.ip_a, link.ip_b)
        };
        Ok(RestoreRegionSetup { a_ns, b_ns, link_key, b_direct_ip, a_direct_ip })
    }

    /// Marks a link as broken or restored, where there is one.
    pub fn set_region_link_broken(&mut self, link_key: &LinkKey, broken: bool)
        requires
            old(self).wf(),
        ensures
            final(self).wf(),
            final(self)@ == old(self)@.marked(link_key@, broken),
    {
        if let Some(link) = self.region_links.get_mut(link_key) {
            link.broken = broken;
        }
    }
}

/// The ends of a fresh link belong to the regions they were handed to.
pub proof fn fresh_link_ends(c: CoreView, a: Seq<char>, b: Seq<char>)
    requires
        a != b,
        c.linked(a, b).1 is Ok,
    ensures
        ({
            let (after, r) = c.linked(a, b);
            let key = link_key(a, b);
            &&& after.link_up(a, b)
            &&& end_of(key, after.links[key], a) == r->Ok_0.0
            &&& far_end_of(key, after.links[key], a) == r->Ok_0.1
            &&& after.linked(b, a).1 is Err
        }),
{
    link_key_is_symmetric(a, b);
    text_lt_is_total(a, b);
}

/// What is needed to set up a region's router.
#[derive(Debug)]
pub struct RegionPlan {
    /// The region's router.
    pub id: NodeId,
    /// The region's index.
    pub idx: u8,
    /// Name of the router.
    pub router_name: String,
    /// Namespace of the router.
    pub ns: String,
    /// Route back to the region's bridge: network, prefix length, next hop.
    pub return_route: Option<(Ipv4Addr, u8, Ipv4Addr)>,
    /// The bridge with its address and prefix length.
    pub bridge: String,
    /// Address and prefix length of the bridge.
    pub bridge_v4: Option<(Ipv4Addr, u8)>,
    /// IPv6 address and prefix length of the bridge.
    pub bridge_v6: Option<(Ipv6Addr, u8)>,
    /// Whether the router advertises itself.
    pub ra_enabled: bool,
    /// Base of the region's block, to be routed over `via` with 20 bits.
    pub region_net: Ipv4Addr,
    /// The router's address on the exchange.
    pub via: Ipv4Addr,
    /// The router's IPv6 address on the exchange.
    pub via_v6: Ipv6Addr,
    /// The IPv6 subnet behind the router, to be routed over `via_v6`.
    pub subnet_v6: Option<Ipv6Net>,
}

impl CoreView {
    /// The topology with the first host numbers of a switch set.
    pub open spec fn first_hosts(self, sw: NodeId, n: u8) -> CoreView {
        if self.switches.contains_key(sw) {
            self.with_switch(
                sw,
                SwitchView { next_host: n, next_host_v6: n, ..self.switches[sw] },
            )
        } else {
            self
        }
    }

    /// Adding a region: a dual-stack router with a public bridge that has the
    /// first /24 of the region's block, connected to the exchange. Hosts on the
    /// bridge start at 10.
    pub open spec fn region_added(self, name: Seq<char>) -> (
        CoreView,
        Result<(u8, Ipv4Addr, Ipv6Addr), CoreError>,
    ) {
        if name.len() == 0 {
            (self, Err(CoreError::EmptyName))
        } else if self.regions.contains_key(name) {
            (self, Err(CoreError::NameTaken))
        } else {
            let (c1, idx) = self.alloc_region();
            match idx {
                Err(e) => (c1, Err(e)),
                Ok(idx) => {
                    let router = "region_"@ + name;
                    let id = NodeId(c1.next_id);
                    let c2 = c1.added_router(
                        router,
                        None,
                        DownstreamPool::Public,
                        None,
                        IpSupport::DualStack,
                        NatV6Mode::Off,
                    );
                    let sw = NodeId(c2.next_id);
                    let c3 = c2.added_switch(
                        router + "-sub"@,
                        fresh_switch(router + "-sub"@, None, None, None, None),
                    );
                    let cidr = Ipv4Net { addr: region_net(idx), prefix_len: 24 };
                    let (c4, down) = c3.downlinked(id, sw, Some(cidr));
                    match down {
                        Err(e) => (c4, Err(e)),
                        Ok(_) => {
                            let c5 = c4.first_hosts(sw, 10);
                            let (c6, v4) = c5.alloc_ix();
                            match v4 {
                                Err(e) => (c6, Err(e)),
                                Ok(via) => {
                                    let (c7, v6) = c6.alloc_ix_v6();
                                    match v6 {
                                        Err(e) => (c7, Err(e)),
                                        Ok(via_v6) => {
                                            let c8 = c7.uplinked(
                                                id,
                                                c7.ix_sw,
                                                Some(via),
                                                Some(via_v6),
                                            );
                                            let info = RegionInfo {
                                                idx,
                                                router_id: id,
                                                next_downstream: 1,
                                            };
                                            (
                                                CoreView {
                                                    regions: c8.regions.insert(name, info),
                                                    ..c8
                                                },
                                                Ok((idx, via, via_v6)),
                                            )
                                        },
                                    }
                                },
                            }
                        },
                    }
                },
            }
        }
    }
}

impl NetworkCore {
    fn set_first_hosts(&mut self, sw: NodeId, n: u8)
        requires
            old(self).wf(),
        ensures
            final(self).wf(),
            final(self)@ == old(self)@.first_hosts(sw, n),
    {
        if let Some(s) = self.switches.get_mut(&sw) {
            s.next_host = n;
            s.next_host_v6 = n;
        }
    }

    /// Adds a region and returns what is needed to set up its router.
    pub fn add_region(&mut self, name: &str) -> (r: Result<RegionPlan, CoreError>)
        requires
            old(self).wf(),
            name@.len() > 0 && !old(self)@.regions.contains_key(name@) && old(self).next_region_idx
                <= 16 ==> old(self).next_id < u64::MAX - 1,
        ensures
            final(self).wf(),
            final(self)@ == old(self)@.region_added(name@).0,
            match r {
                Ok(p) => {
                    let c = final(self)@;
                    let router = c.routers[p.id];
                    let sw = c.switches[router.downlink->0];
                    &&& old(self)@.region_added(name@).1 == Ok::<
                        (u8, Ipv4Addr, Ipv6Addr),
                        CoreError,
                    >((p.idx, p.via, p.via_v6))
                    &&& p.id == NodeId(old(self)@.next_id)
                    &&& p.router_name@ == "region_"@ + name@
                    &&& p.ns@ == router.ns
                    &&& p.return_route == Some(
                        (router.downstream_cidr->0.addr, router.downstream_cidr->0.prefix_len, p.via),
                    )
                    &&& p.bridge@ == sw.bridge_name()
                    &&& p.bridge_v4 == Some((sw.gw->0, sw.cidr->0.prefix_len))
                    &&& p.bridge_v6 == Some((sw.gw_v6->0, sw.cidr_v6->0.prefix_len))
                    &&& p.ra_enabled == router.cfg.ra_enabled
                    &&& p.region_net == region_net(p.idx)
                    &&& p.subnet_v6 == router.downstream_cidr_v6
                },
                Err(e) => old(self)@.region_added(name@).1 == Err::<
                    (u8, Ipv4Addr, Ipv6Addr),
                    CoreError,
                >(e),
            },
    {
        if name.is_empty() {
            return Err(CoreError::EmptyName);
        }
        if self.regions.contains_key(&name.to_owned()) {
            return Err(CoreError::NameTaken);
        }
        let idx = match self.alloc_region_idx() {
            Ok(idx) => idx,
            Err(e) => {
                return Err(e);
            },
        };
        let mut router_name = "region_".to_owned();
        router_name.append(name);
        let id = self.add_router(
            router_name.as_str(),
            None,
            DownstreamPool::Public,
            None,
            IpSupport::DualStack,
            NatV6Mode::Off,
        );
        let mut sub_name = router_name.clone();
        sub_name.append("-sub");
        let sub = self.add_switch(sub_name.as_str(), None, None, None, None);
        let base = region_base(idx);
        let cidr = Ipv4Net { addr: base, prefix_len: 24 };
        if let Err(e) = self.connect_router_downlink(id, sub, Some(cidr)) {
            return Err(e);
        }
        self.set_first_hosts(sub, 10);
        let via = match self.alloc_ix_ip_low() {
            Ok(ip) => ip,
            Err(e) => {
                return Err(e);
            },
        };
        let via_v6 = match self.alloc_ix_ip_v6_low() {
            Ok(ip) => ip,
            Err(e) => {
                return Err(e);
            },
        };
        let ix_sw = self.ix_sw;
        if let Err(e) = self.connect_router_uplink(id, ix_sw, Some(via), Some(via_v6)) {
            return Err(e);
        }
        self.regions.insert(
            name.to_owned(),
            RegionInfo { idx, router_id: id, next_downstream: 1 },
        );
        let router = self.routers.get(&id).unwrap();
        let sw = self.switches.get(&sub).unwrap();
        let return_route = match router.downstream_cidr {
            Some(c) => Some((c.addr, c.prefix_len, via)),
            None => None,
        };
        let bridge_v4 = match (sw.gw, sw.cidr) {
            (Some(gw), Some(c)) => Some((gw, c.prefix_len)),
            _ => None,
        };
        let bridge_v6 = match (sw.gw_v6, sw.cidr_v6) {
            (Some(gw), Some(c)) => Some((gw, c.prefix_len)),
            _ => None,
        };
        Ok(
            RegionPlan {
                id,
                idx,
                router_name,
                ns: router.ns.clone(),
                return_route,
                bridge: sw.bridge_name(),
                bridge_v4,
                bridge_v6,
                ra_enabled: router.cfg.ra_enabled,
                region_net: base,
                via,
                via_v6,
                subnet_v6: router.downstream_cidr_v6,
            },
        )
    }
}

} // verus!
