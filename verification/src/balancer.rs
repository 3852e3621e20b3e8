//! L4 load balancers backed by nftables DNAT rules on a router.
//!
//! A balancer listens on a port of the router's public address and hands each
//! new connection to one of its backends, devices behind the router.
use vstd::prelude::*;

use crate::addr::IpAddr;
use crate::text::{dec, push_dec, str_eq};
use crate::topology::types::{CoreError, CoreView, NetworkCore, NodeId, RouterData, RouterView};

verus! {

/// Load-balancing algorithm.
#[derive(Clone, Copy, Debug, PartialEq, Eq, Structural)]
pub enum LbAlgorithm {
    /// Distribute connections evenly across backends in order.
    RoundRobin,
}

impl Default for LbAlgorithm {
    fn default() -> (r: LbAlgorithm)
        ensures
            r == LbAlgorithm::RoundRobin,
    {
        LbAlgorithm::RoundRobin
    }
}

/// Transport protocol for the load balancer.
#[derive(Clone, Copy, Debug, PartialEq, Eq, Structural)]
pub enum LbProtocol {
    /// TCP (default).
    Tcp,
    /// UDP.
    Udp,
}

impl Default for LbProtocol {
    fn default() -> (r: LbProtocol)
        ensures
            r == LbProtocol::Tcp,
    {
        LbProtocol::Tcp
    }
}

impl LbProtocol {
    /// The protocol's name in a rule.
    pub open spec fn spec_name(self) -> Seq<char> {
        match self {
            LbProtocol::Tcp => "tcp"@,
            LbProtocol::Udp => "udp"@,
        }
    }

    /// The protocol's name in a rule.
    pub fn nft_name(self) -> (r: &'static str)
        ensures
            r@ == self.spec_name(),
    {
        match self {
            LbProtocol::Tcp => "tcp",
            LbProtocol::Udp => "udp",
        }
    }
}

/// A single backend: device and port.
#[derive(Clone, Copy, Debug, PartialEq, Eq, Structural)]
pub struct BackendEntry {
    /// The device.
    pub device_id: NodeId,
    /// Port on the device.
    pub port: u16,
}

/// Configuration of a balancer.
#[derive(Debug)]
pub struct BalancerConfig {
    /// Human-readable name.
    pub name: String,
    /// Port on the router's public address.
    pub port: u16,
    /// Backends.
    pub backends: Vec<BackendEntry>,
    /// Balancing algorithm.
    pub algorithm: LbAlgorithm,
    /// Transport protocol.
    pub protocol: LbProtocol,
    /// Session affinity timeout in milliseconds; kept, not yet in the rules.
    pub affinity_ms: Option<u64>,
}

/// Configuration of a balancer.
pub struct BalancerView {
    /// Human-readable name.
    pub name: Seq<char>,
    /// Port on the router's public address.
    pub port: u16,
    /// Backends.
    pub backends: Seq<BackendEntry>,
    /// Balancing algorithm.
    pub algorithm: LbAlgorithm,
    /// Transport protocol.
    pub protocol: LbProtocol,
    /// Session affinity timeout in milliseconds.
    pub affinity_ms: Option<u64>,
}

impl View for BalancerConfig {
    type V = BalancerView;

    open spec fn view(&self) -> BalancerView {
        BalancerView {
            name: self.name@,
            port: self.port,
            backends: self.backends@,
            algorithm: self.algorithm,
            protocol: self.protocol,
            affinity_ms: self.affinity_ms,
        }
    }
}

/// The views of a list of balancers.
pub open spec fn balancer_views(v: Seq<BalancerConfig>) -> Seq<BalancerView> {
    Seq::new(v.len(), |i: int| v[i]@)
}

/// Why a change of the balancers was refused.
#[derive(Clone, Copy, Debug, PartialEq, Eq, Structural)]
pub enum BalancerError {
    /// A balancer needs a backend.
    NoBackends,
    /// The router has a balancer of that name.
    NameTaken,
    /// The router has no balancer of that name.
    NotFound,
}

impl BalancerConfig {
    /// A TCP balancer without backends yet.
    pub fn new(name: &str, port: u16) -> (r: BalancerConfig)
        ensures
            r@ == (BalancerView {
                name: name@,
                port,
                backends: Seq::empty(),
                algorithm: LbAlgorithm::RoundRobin,
                protocol: LbProtocol::Tcp,
                affinity_ms: None,
            }),
    {
        BalancerConfig {
            name: name.to_owned(),
            port,
            backends: Vec::new(),
            algorithm: LbAlgorithm::RoundRobin,
            protocol: LbProtocol::Tcp,
            affinity_ms: None,
        }
    }

    /// Adds a backend device at the given port.
    pub fn backend(self, device_id: NodeId, port: u16) -> (r: BalancerConfig)
        ensures
            r@ == (BalancerView {
                backends: self@.backends.push(BackendEntry { device_id, port }),
                ..self@
            }),
    {
        let mut out = self;
        out.backends.push(BackendEntry { device_id, port });
        out
    }

    /// Selects round-robin distribution (the default).
    pub fn round_robin(self) -> (r: BalancerConfig)
        ensures
            r@ == (BalancerView { algorithm: LbAlgorithm::RoundRobin, ..self@ }),
    {
        let mut out = self;
        out.algorithm = LbAlgorithm::RoundRobin;
        out
    }

    /// Sets the transport protocol.
    pub fn protocol(self, proto: LbProtocol) -> (r: BalancerConfig)
        ensures
            r@ == (BalancerView { protocol: proto, ..self@ }),
    {
        let mut out = self;
        out.protocol = proto;
        out
    }

    /// Enables session affinity with the given timeout in milliseconds.
    pub fn session_affinity(self, timeout_ms: u64) -> (r: BalancerConfig)
        ensures
            r@ == (BalancerView { affinity_ms: Some(timeout_ms), ..self@ }),
    {
        let mut out = self;
        out.affinity_ms = Some(timeout_ms);
        out
    }
}

/// The place of the balancer of that name, from place `i` on.
pub open spec fn balancer_from(v: Seq<BalancerView>, name: Seq<char>, i: int) -> Option<int>
    decreases v.len() - i,
{
    if i < 0 || i >= v.len() {
        None
    } else if v[i].name == name {
        Some(i)
    } else {
        balancer_from(v, name, i + 1)
    }
}

/// The place of the balancer of that name.
pub fn find_balancer(v: &Vec<BalancerConfig>, name: &str) -> (r: Option<usize>)
    ensures
        match r {
            Some(i) => balancer_from(balancer_views(v@), name@, 0) == Some(i as int) && i
                < v.len(),
            None => balancer_from(balancer_views(v@), name@, 0) is None,
        },
{
    let mut i: usize = 0;
    while i < v.len()
        invariant
            i <= v.len(),
            balancer_from(balancer_views(v@), name@, 0) == balancer_from(
                balancer_views(v@),
                name@,
                i as int,
            ),
        decreases v.len() - i,
    {
        if str_eq(v[i].name.as_str(), name) {
            return Some(i);
        }
        i += 1;
    }
    None
}

/// Adds a balancer to those of a router. It needs a backend and a name of its
/// own.
pub fn add_balancer(balancers: &mut Vec<BalancerConfig>, config: BalancerConfig) -> (r: Result<
    (),
    BalancerError,
>)
    ensures
        config@.backends.len() == 0 ==> r == Err::<(), BalancerError>(BalancerError::NoBackends),
        config@.backends.len() > 0 && balancer_from(
            balancer_views(old(balancers)@),
            config@.name,
            0,
        ) is Some ==> r == Err::<(), BalancerError>(BalancerError::NameTaken),
        config@.backends.len() > 0 && balancer_from(
            balancer_views(old(balancers)@),
            config@.name,
            0,
        ) is None ==> r is Ok && balancer_views(final(balancers)@) == balancer_views(
            old(balancers)@,
        ).push(config@),
        r is Err ==> final(balancers)@ == old(balancers)@,
{
    if config.backends.len() == 0 {
        return Err(BalancerError::NoBackends);
    }
    if find_balancer(balancers, config.name.as_str()).is_some() {
        return Err(BalancerError::NameTaken);
    }
    balancers.push(config);
    assert(balancer_views(balancers@) =~= balancer_views(old(balancers)@).push(config@));
    Ok(())
}

/// The backends with one more, unless it is there.
pub open spec fn with_backend(v: Seq<BackendEntry>, b: BackendEntry) -> Seq<BackendEntry> {
    if v.contains(b) {
        v
    } else {
        v.push(b)
    }
}

/// Adds a backend to a balancer. Returns whether the rules have to be applied
/// again: not where the backend was there.
pub fn add_backend(
    balancers: &mut Vec<BalancerConfig>,
    name: &str,
    device_id: NodeId,
    port: u16,
) -> (r: Result<bool, BalancerError>)
    ensures
        match balancer_from(balancer_views(old(balancers)@), name@, 0) {
            None => r == Err::<bool, BalancerError>(BalancerError::NotFound)
                && final(balancers)@ == old(balancers)@,
            Some(k) => {
                let cfg = balancer_views(old(balancers)@)[k];
                let entry = BackendEntry { device_id, port };
                &&& r == Ok::<bool, BalancerError>(!cfg.backends.contains(entry))
                &&& balancer_views(final(balancers)@) == balancer_views(old(balancers)@).update(
                    k,
                    BalancerView { backends: with_backend(cfg.backends, entry), ..cfg },
                )
            },
        },
{
    let k = match find_balancer(balancers, name) {
        None => {
            return Err(BalancerError::NotFound);
        },
        Some(k) => k,
    };
    let ghost before = balancer_views(balancers@);
    let entry = BackendEntry { device_id, port };
    let mut i: usize = 0;
    while i < balancers[k].backends.len()
        invariant
            *balancers == *old(balancers),
            before == balancer_views(balancers@),
            balancer_from(before, name@, 0) == Some(k as int),
            k < balancers.len(),
            i <= balancers[k as int].backends.len(),
            entry == (BackendEntry { device_id, port }),
            forall|j: int|
                0 <= j < i ==> (#[trigger] balancers[k as int].backends@[j]) != entry,
        decreases balancers[k as int].backends.len() - i,
    {
        if balancers[k].backends[i] == entry {
            assert(before[k as int].backends[i as int] == entry);
            assert(before =~= before.update(
                k as int,
                BalancerView {
                    backends: with_backend(before[k as int].backends, entry),
                    ..before[k as int]
                },
            ));
            return Ok(false);
        }
        i += 1;
    }
    assert(!before[k as int].backends.contains(entry));
    let cfg = &mut balancers[k];
    cfg.backends.push(entry);
    assert(balancer_views(balancers@) =~= before.update(
        k as int,
        BalancerView {
            backends: with_backend(before[k as int].backends, entry),
            ..before[k as int]
        },
    ));
    Ok(true)
}

/// The backends without those of a device.
pub open spec fn without_device(v: Seq<BackendEntry>, device_id: NodeId) -> Seq<BackendEntry> {
    v.filter(|b: BackendEntry| b.device_id != device_id)
}

/// Removes a device from the backends of a balancer.
pub fn remove_backend(
    balancers: &mut Vec<BalancerConfig>,
    name: &str,
    device_id: NodeId,
) -> (r: Result<(), BalancerError>)
    ensures
        match balancer_from(balancer_views(old(balancers)@), name@, 0) {
            None => r == Err::<(), BalancerError>(BalancerError::NotFound) && final(balancers)@
                == old(balancers)@,
            Some(k) => {
                let cfg = balancer_views(old(balancers)@)[k];
                &&& r is Ok
                &&& balancer_views(final(balancers)@) == balancer_views(old(balancers)@).update(
                    k,
                    BalancerView { backends: without_device(cfg.backends, device_id), ..cfg },
                )
            },
        },
{
    let k = match find_balancer(balancers, name) {
        None => {
            return Err(BalancerError::NotFound);
        },
        Some(k) => k,
    };
    let ghost before = balancer_views(balancers@);
    let ghost all = before[k as int].backends;
    let mut kept: Vec<BackendEntry> = Vec::new();
    let mut i: usize = 0;
    proof {
        reveal(Seq::filter);
        assert(kept@ =~= without_device(all.take(0), device_id));
    }
    while i < balancers[k].backends.len()
        invariant
            *balancers == *old(balancers),
            k < balancers.len(),
            all == balancers[k as int].backends@,
            i <= all.len(),
            kept@ == without_device(all.take(i as int), device_id),
        decreases all.len() - i,
    {
        let b = balancers[k].backends[i];
        proof {
            reveal(Seq::filter);
            assert(all.take(i as int + 1).drop_last() =~= all.take(i as int));
        }
        if b.device_id != device_id {
            kept.push(b);
        }
        i += 1;
    }
    assert(all.take(all.len() as int) =~= all);
    let cfg = &mut balancers[k];
    cfg.backends = kept;
    assert(balancer_views(balancers@) =~= before.update(
        k as int,
        BalancerView { backends: without_device(all, device_id), ..before[k as int] },
    ));
    Ok(())
}

// ── rules ────────────────────────────────────────────────────────────

/// Every backend that is there has an interface.
pub open spec fn backends_wired(c: CoreView, backends: Seq<BackendEntry>) -> bool {
    forall|i: int|
        0 <= i < backends.len() && c.devices.contains_key((#[trigger] backends[i]).device_id)
            ==> c.devices[backends[i].device_id].interfaces.len() > 0
}

/// The IPv4 addresses and ports of the first `n` backends. A device without an
/// address is left out; one that is gone is an error.
pub open spec fn targets_v4(c: CoreView, backends: Seq<BackendEntry>, n: int) -> Result<
    Seq<(IpAddr, u16)>,
    CoreError,
>
    decreases n,
{
    if n <= 0 {
        Ok(Seq::empty())
    } else {
        match targets_v4(c, backends, n - 1) {
            Err(e) => Err(e),
            Ok(before) => {
                let b = backends[n - 1];
                if !c.devices.contains_key(b.device_id) {
                    Err(CoreError::UnknownDevice)
                } else {
                    let d = c.devices[b.device_id];
                    match d.iface(d.default_via)->0.ip {
                        Some(ip) => Ok(before.push((IpAddr::V4(ip), b.port))),
                        None => Ok(before),
                    }
                }
            },
        }
    }
}

/// The IPv6 addresses and ports of the first `n` backends. A device without an
/// address, or one that is gone, is left out.
pub open spec fn targets_v6(c: CoreView, backends: Seq<BackendEntry>, n: int) -> Seq<(IpAddr, u16)>
    decreases n,
{
    if n <= 0 {
        Seq::empty()
    } else {
        let before = targets_v6(c, backends, n - 1);
        let b = backends[n - 1];
        if !c.devices.contains_key(b.device_id) {
            before
        } else {
            let d = c.devices[b.device_id];
            match d.iface(d.default_via)->0.ip_v6 {
                Some(ip) => before.push((IpAddr::V6(ip), b.port)),
                None => before,
            }
        }
    }
}

/// An error among the backends stays an error.
proof fn target_error_stays(c: CoreView, backends: Seq<BackendEntry>, n: int, m: int)
    requires
        0 <= n <= m,
        targets_v4(c, backends, n) is Err,
    ensures
        targets_v4(c, backends, m) == targets_v4(c, backends, n),
    decreases m - n,
{
    if n < m {
        target_error_stays(c, backends, n, m - 1);
    }
}

/// Resolves the backends of a balancer to IPv4 addresses.
pub fn resolve_backends_v4(cfg: &BalancerConfig, core: &NetworkCore) -> (r: Result<
    Vec<(IpAddr, u16)>,
    CoreError,
>)
    requires
        core.wf(),
        backends_wired(core@, cfg@.backends),
    ensures
        match r {
            Ok(v) => targets_v4(core@, cfg@.backends, cfg@.backends.len() as int) == Ok::<
                Seq<(IpAddr, u16)>,
                CoreError,
            >(v@),
            Err(e) => targets_v4(core@, cfg@.backends, cfg@.backends.len() as int) == Err::<
                Seq<(IpAddr, u16)>,
                CoreError,
            >(e),
        },
{
    let mut out: Vec<(IpAddr, u16)> = Vec::new();
    let mut i: usize = 0;
    while i < cfg.backends.len()
        invariant
            core.wf(),
            backends_wired(core@, cfg@.backends),
            i <= cfg.backends.len(),
            targets_v4(core@, cfg@.backends, i as int) == Ok::<Seq<(IpAddr, u16)>, CoreError>(
                out@,
            ),
        decreases cfg.backends.len() - i,
    {
        let b = cfg.backends[i];
        assert(cfg@.backends[i as int] == b);
        match core.device(b.device_id) {
            None => {
                proof {
                    assert(targets_v4(core@, cfg@.backends, i as int + 1) is Err);
                    target_error_stays(
                        core@,
                        cfg@.backends,
                        i as int + 1,
                        cfg@.backends.len() as int,
                    );
                }
                return Err(CoreError::UnknownDevice);
            },
            Some(dev) => {
                assert(dev@.wf());
                if let Some(ip) = dev.default_iface().ip {
                    out.push((IpAddr::V4(ip), b.port));
                }
            },
        }
        i += 1;
    }
    Ok(out)
}

/// Resolves the backends of a balancer to IPv6 addresses.
pub fn resolve_backends_v6(cfg: &BalancerConfig, core: &NetworkCore) -> (r: Vec<(IpAddr, u16)>)
    requires
        core.wf(),
        backends_wired(core@, cfg@.backends),
    ensures
        r@ == targets_v6(core@, cfg@.backends, cfg@.backends.len() as int),
{
    let mut out: Vec<(IpAddr, u16)> = Vec::new();
    let mut i: usize = 0;
    while i < cfg.backends.len()
        invariant
            core.wf(),
            backends_wired(core@, cfg@.backends),
            i <= cfg.backends.len(),
            out@ == targets_v6(core@, cfg@.backends, i as int),
        decreases cfg.backends.len() - i,
    {
        let b = cfg.backends[i];
        assert(cfg@.backends[i as int] == b);
        if let Some(dev) = core.device(b.device_id) {
            assert(dev@.wf());
            if let Some(ip) = dev.default_iface().ip_v6 {
                out.push((IpAddr::V6(ip), b.port));
            }
        }
        i += 1;
    }
    out
}

/// The numbered targets of a map, up to number `n`.
pub open spec fn map_lines(targets: Seq<(IpAddr, u16)>, n: int) -> Seq<char>
    decreases n,
{
    if n <= 0 {
        Seq::empty()
    } else {
        let t = targets[n - 1];
        map_lines(targets, n - 1) + ("            "@ + dec((n - 1) as nat) + " : "@
            + t.0.spec_text() + " . "@ + dec(t.1 as nat) + ",\n"@)
    }
}

/// The rule that hands connections to the targets: one directly, several in
/// turn. `sep` stands between the address and the port of a single one.
pub open spec fn dnat_map(
    targets: Seq<(IpAddr, u16)>,
    proto: LbProtocol,
    sep: Seq<char>,
) -> Seq<char> {
    if targets.len() == 1 {
        "        meta l4proto "@ + proto.spec_name() + " dnat to "@ + targets[0].0.spec_text() + sep
            + dec(targets[0].1 as nat) + "\n"@
    } else {
        "        meta l4proto "@ + proto.spec_name() + " dnat to numgen inc mod "@ + dec(
            targets.len(),
        ) + " map {\n"@ + map_lines(targets, targets.len() as int) + "        }\n"@
    }
}

fn dnat_map_text(targets: &Vec<(IpAddr, u16)>, proto: LbProtocol, sep: &str) -> (r: String)
    ensures
        r@ == dnat_map(targets@, proto, sep@),
{
    let mut s = "        meta l4proto ".to_owned();
    s.append(proto.nft_name());
    if targets.len() == 1 {
        s.append(" dnat to ");
        s.append(targets[0].0.text().as_str());
        s.append(sep);
        push_dec(&mut s, targets[0].1 as u64);
        s.append("\n");
        return s;
    }
    s.append(" dnat to numgen inc mod ");
    push_dec(&mut s, targets.len() as u64);
    s.append(" map {\n");
    let mut lines = String::new();
    let mut i: usize = 0;
    while i < targets.len()
        invariant
            i <= targets.len(),
            lines@ == map_lines(targets@, i as int),
        decreases targets.len() - i,
    {
        let mut line = "            ".to_owned();
        push_dec(&mut line, i as u64);
        line.append(" : ");
        line.append(targets[i].0.text().as_str());
        line.append(" . ");
        push_dec(&mut line, targets[i].1 as u64);
        line.append(",\n");
        lines.append(line.as_str());
        i += 1;
    }
    s.append(lines.as_str());
    s.append("        }\n");
    s
}

/// Generates the DNAT rule for IPv4 targets.
pub fn generate_dnat_map_v4(targets: &Vec<(IpAddr, u16)>, proto: LbProtocol) -> (r: String)
    ensures
        r@ == dnat_map(targets@, proto, " : "@),
{
    dnat_map_text(targets, proto, " : ")
}

/// Generates the DNAT rule for IPv6 targets.
pub fn generate_dnat_map_v6(targets: &Vec<(IpAddr, u16)>, proto: LbProtocol) -> (r: String)
    ensures
        r@ == dnat_map(targets@, proto, " . "@),
{
    dnat_map_text(targets, proto, " . ")
}

/// The chain of a service.
pub open spec fn service_chain(b: BalancerView, targets: Seq<(IpAddr, u16)>, sep: Seq<char>) -> Seq<
    char,
> {
    if targets.len() == 0 {
        Seq::empty()
    } else {
        "    chain svc_"@ + b.name + " {\n"@ + dnat_map(targets, b.protocol, sep) + "    }\n"@
    }
}

/// The rule that sends a service's connections to its chain.
pub open spec fn service_rule(
    b: BalancerView,
    targets: Seq<(IpAddr, u16)>,
    family: Seq<char>,
    vip: Seq<char>,
) -> Seq<char> {
    if targets.len() == 0 {
        Seq::empty()
    } else {
        "        "@ + family + " daddr "@ + vip + " "@ + b.protocol.spec_name() + " dport "@ + dec(
            b.port as nat,
        ) + " goto svc_"@ + b.name + "\n"@
    }
}

/// The targets of the services, one list for each.
pub open spec fn chains(
    bs: Seq<BalancerView>,
    targets: Seq<Seq<(IpAddr, u16)>>,
    sep: Seq<char>,
    n: int,
) -> Seq<char>
    decreases n,
{
    if n <= 0 {
        Seq::empty()
    } else {
        chains(bs, targets, sep, n - 1) + service_chain(bs[n - 1], targets[n - 1], sep)
    }
}

/// The rules that send connections to the services.
pub open spec fn gotos(
    bs: Seq<BalancerView>,
    targets: Seq<Seq<(IpAddr, u16)>>,
    family: Seq<char>,
    vip: Seq<char>,
    n: int,
) -> Seq<char>
    decreases n,
{
    if n <= 0 {
        Seq::empty()
    } else {
        gotos(bs, targets, family, vip, n - 1) + service_rule(
            bs[n - 1],
            targets[n - 1],
            family,
            vip,
        )
    }
}

/// The table of one address family.
pub open spec fn lb_table(
    bs: Seq<BalancerView>,
    targets: Seq<Seq<(IpAddr, u16)>>,
    family: Seq<char>,
    vip: Seq<char>,
    sep: Seq<char>,
) -> Seq<char> {
    "table "@ + family + " lb {\n"@ + chains(bs, targets, sep, bs.len() as int)
        + "    chain prerouting {\n        type nat hook prerouting priority dstnat - 5; policy accept;\n"@
        + gotos(bs, targets, family, vip, bs.len() as int)
        + "    }\n    chain postrouting {\n        type nat hook postrouting priority srcnat; policy accept;\n        ct status dnat masquerade\n    }\n}\n"@
}

/// The views of lists of targets.
pub open spec fn target_lists(v: Seq<Vec<(IpAddr, u16)>>) -> Seq<Seq<(IpAddr, u16)>> {
    Seq::new(v.len(), |i: int| v[i]@)
}

fn lb_table_text(
    bs: &Vec<BalancerConfig>,
    targets: &Vec<Vec<(IpAddr, u16)>>,
    family: &str,
    vip: &str,
    sep: &str,
) -> (r: String)
    requires
        bs.len() == targets.len(),
    ensures
        r@ == lb_table(balancer_views(bs@), target_lists(targets@), family@, vip@, sep@),
{
    let ghost views = balancer_views(bs@);
    let ghost lists = target_lists(targets@);
    let mut svc = String::new();
    let mut i: usize = 0;
    while i < bs.len()
        invariant
            bs.len() == targets.len(),
            i <= bs.len(),
            views == balancer_views(bs@),
            lists == target_lists(targets@),
            svc@ == chains(views, lists, sep@, i as int),
        decreases bs.len() - i,
    {
        let mut chain = String::new();
        if targets[i].len() > 0 {
            chain = "    chain svc_".to_owned();
            chain.append(bs[i].name.as_str());
            chain.append(" {\n");
            chain.append(dnat_map_text(&targets[i], bs[i].protocol, sep).as_str());
            chain.append("    }\n");
        }
        assert(chain@ == service_chain(views[i as int], lists[i as int], sep@));
        svc.append(chain.as_str());
        i += 1;
    }
    let mut pre = String::new();
    let mut k: usize = 0;
    while k < bs.len()
        invariant
            bs.len() == targets.len(),
            k <= bs.len(),
            views == balancer_views(bs@),
            lists == target_lists(targets@),
            pre@ == gotos(views, lists, family@, vip@, k as int),
        decreases bs.len() - k,
    {
        let mut rule = String::new();
        if targets[k].len() > 0 {
            rule = "        ".to_owned();
            rule.append(family);
            rule.append(" daddr ");
            rule.append(vip);
            rule.append(" ");
            rule.append(bs[k].protocol.nft_name());
            rule.append(" dport ");
            push_dec(&mut rule, bs[k].port as u64);
            rule.append(" goto svc_");
            rule.append(bs[k].name.as_str());
            rule.append("\n");
        }
        assert(rule@ == service_rule(views[k as int], lists[k as int], family@, vip@));
        pre.append(rule.as_str());
        k += 1;
    }
    let mut s = "table ".to_owned();
    s.append(family);
    s.append(" lb {\n");
    s.append(svc.as_str());
    s.append(
        "    chain prerouting {\n        type nat hook prerouting priority dstnat - 5; policy accept;\n",
    );
    s.append(pre.as_str());
    s.append(
        "    }\n    chain postrouting {\n        type nat hook postrouting priority srcnat; policy accept;\n        ct status dnat masquerade\n    }\n}\n",
    );
    s
}

/// Whether every balancer's backends are there.
pub open spec fn all_resolve(c: CoreView, bs: Seq<BalancerView>) -> bool {
    forall|i: int|
        0 <= i < bs.len() ==> targets_v4(
            c,
            (#[trigger] bs[i]).backends,
            bs[i].backends.len() as int,
        ) is Ok
}

/// The IPv4 targets of all balancers.
pub open spec fn all_v4(c: CoreView, bs: Seq<BalancerView>) -> Seq<Seq<(IpAddr, u16)>> {
    bs.map_values(|b: BalancerView| targets_v4(c, b.backends, b.backends.len() as int)->Ok_0)
}

/// The IPv6 targets of all balancers.
pub open spec fn all_v6(c: CoreView, bs: Seq<BalancerView>) -> Seq<Seq<(IpAddr, u16)>> {
    bs.map_values(|b: BalancerView| targets_v6(c, b.backends, b.backends.len() as int))
}

/// The complete ruleset for the balancers of a router: a table for IPv4, and one
/// for IPv6 where the router has such an address.
pub open spec fn ruleset(router: RouterView, bs: Seq<BalancerView>, core: CoreView) -> Result<
    Seq<char>,
    CoreError,
> {
    if router.upstream_ip is None {
        Err(CoreError::NoUpstreamIp)
    } else if !all_resolve(core, bs) {
        Err(CoreError::UnknownDevice)
    } else {
        let ip = router.upstream_ip->0.spec_text();
        let v4 = lb_table(bs, all_v4(core, bs), "ip"@, ip, " : "@);
        match router.upstream_ip_v6 {
            None => Ok(v4),
            Some(ip) => Ok(
                v4 + lb_table(bs, all_v6(core, bs), "ip6"@, ip.spec_text(), " . "@),
            ),
        }
    }
}

/// Generates the complete ruleset for the balancers of a router: a table for
/// IPv4, and one for IPv6 where the router has such an address.
pub fn generate_all_balancer_rules(
    router: &RouterData,
    balancers: &Vec<BalancerConfig>,
    core: &NetworkCore,
) -> (r: Result<String, CoreError>)
    requires
        core.wf(),
        forall|i: int|
            0 <= i < balancers@.len() ==> backends_wired(
                core@,
                (#[trigger] balancer_views(balancers@)[i]).backends,
            ),
    ensures
        match r {
            Ok(rules) => ruleset(router@, balancer_views(balancers@), core@) == Ok::<
                Seq<char>,
                CoreError,
            >(rules@),
            Err(e) => ruleset(router@, balancer_views(balancers@), core@) == Err::<
                Seq<char>,
                CoreError,
            >(e),
        },
{
    let wan_ip = match router.upstream_ip {
        None => {
            return Err(CoreError::NoUpstreamIp);
        },
        Some(ip) => ip,
    };
    let ghost bs = balancer_views(balancers@);
    let mut v4: Vec<Vec<(IpAddr, u16)>> = Vec::new();
    let mut v6: Vec<Vec<(IpAddr, u16)>> = Vec::new();
    let mut i: usize = 0;
    while i < balancers.len()
        invariant
            core.wf(),
            bs == balancer_views(balancers@),
            forall|j: int|
                0 <= j < balancers@.len() ==> backends_wired(
                    core@,
                    (#[trigger] balancer_views(balancers@)[j]).backends,
                ),
            i <= balancers.len(),
            v4.len() == i,
            v6.len() == i,
            router@.upstream_ip is Some,
            forall|j: int|
                0 <= j < i ==> targets_v4(
                    core@,
                    (#[trigger] bs[j]).backends,
                    bs[j].backends.len() as int,
                ) == Ok::<Seq<(IpAddr, u16)>, CoreError>(v4@[j]@),
            forall|j: int|
                0 <= j < i ==> targets_v6(
                    core@,
                    (#[trigger] bs[j]).backends,
                    bs[j].backends.len() as int,
                ) == v6@[j]@,
        decreases balancers.len() - i,
    {
        assert(bs[i as int] == balancers@[i as int]@);
        match resolve_backends_v4(&balancers[i], core) {
            Ok(t) => {
                v4.push(t);
            },
            Err(e) => {
                proof {
                    only_unknown_devices(
                        core@,
                        bs[i as int].backends,
                        bs[i as int].backends.len() as int,
                    );
                }
                return Err(e);
            },
        }
        v6.push(resolve_backends_v6(&balancers[i], core));
        i += 1;
    }
    assert(target_lists(v4@) =~= all_v4(core@, bs));
    assert(target_lists(v6@) =~= all_v6(core@, bs));
    let mut rules = lb_table_text(balancers, &v4, "ip", wan_ip.text().as_str(), " : ");
    if let Some(wan_ip6) = router.upstream_ip_v6 {
        rules.append(
            lb_table_text(balancers, &v6, "ip6", wan_ip6.text().as_str(), " . ").as_str(),
        );
    }
    Ok(rules)
}

/// The only thing that can go wrong with backends is that one is gone.
proof fn only_unknown_devices(c: CoreView, backends: Seq<BackendEntry>, n: int)
    ensures
        targets_v4(c, backends, n) is Err ==> targets_v4(c, backends, n)->Err_0
            == CoreError::UnknownDevice,
    decreases n,
{
    if n > 0 {
        only_unknown_devices(c, backends, n - 1);
    }
}

/// The ruleset to load once the tables are removed; none where the router has no
/// balancer.
pub fn balancer_rules(
    router: &RouterData,
    balancers: &Vec<BalancerConfig>,
    core: &NetworkCore,
) -> (r: Result<Option<String>, CoreError>)
    requires
        core.wf(),
        forall|i: int|
            0 <= i < balancers@.len() ==> backends_wired(
                core@,
                (#[trigger] balancer_views(balancers@)[i]).backends,
            ),
    ensures
        balancers@.len() == 0 ==> r == Ok::<Option<String>, CoreError>(None),
        balancers@.len() > 0 ==> match r {
            Ok(rules) => rules is Some && ruleset(router@, balancer_views(balancers@), core@)
                == Ok::<Seq<char>, CoreError>((rules->0)@),
            Err(e) => ruleset(router@, balancer_views(balancers@), core@) == Err::<
                Seq<char>,
                CoreError,
            >(e),
        },
{
    if balancers.len() == 0 {
        return Ok(None);
    }
    match generate_all_balancer_rules(router, balancers, core) {
        Ok(rules) => Ok(Some(rules)),
        Err(e) => Err(e),
    }
}

/// The scripts that remove the balancer tables; either may fail where its table
/// is not there.
pub fn balancer_removal_scripts() -> (r: (&'static str, &'static str))
    ensures
        r.0@ == "delete table ip lb\n"@,
        r.1@ == "delete table ip6 lb\n"@,
{
    ("delete table ip lb\n", "delete table ip6 lb\n")
}

/// No two balancers have the same name.
pub open spec fn balancers_ok(v: Seq<BalancerView>) -> bool {
    forall|i: int, j: int|
        0 <= i < j < v.len() ==> (#[trigger] v[i]).name != (#[trigger] v[j]).name
}

/// `balancer_from` gives the first balancer of that name, or there is none.
pub proof fn balancer_from_is_first(v: Seq<BalancerView>, name: Seq<char>, i: int)
    requires
        0 <= i,
    ensures
        match balancer_from(v, name, i) {
            Some(k) => i <= k < v.len() && v[k].name == name,
            None => forall|j: int| i <= j < v.len() ==> (#[trigger] v[j]).name != name,
        },
    decreases v.len() - i,
{
    if i < v.len() && v[i].name != name {
        balancer_from_is_first(v, name, i + 1);
    }
}

/// The names of balancers stay distinct, whether one is added under a name that
/// is free or the backends of one change.
pub proof fn balancer_names_stay_distinct(
    v: Seq<BalancerView>,
    config: BalancerView,
    name: Seq<char>,
    backends: Seq<BackendEntry>,
)
    requires
        balancers_ok(v),
    ensures
        balancer_from(v, config.name, 0) is None ==> balancers_ok(v.push(config)),
        balancer_from(v, name, 0) matches Some(k) ==> balancers_ok(
            v.update(k, BalancerView { backends, ..v[k] }),
        ),
{
    balancer_from_is_first(v, config.name, 0);
    balancer_from_is_first(v, name, 0);
}

/// A backend that was added is there, adding it again changes nothing, and of a
/// device that was removed no backend is left.
pub proof fn backends_come_and_go(v: Seq<BackendEntry>, b: BackendEntry)
    ensures
        with_backend(v, b).contains(b),
        with_backend(with_backend(v, b), b) == with_backend(v, b),
        forall|x: BackendEntry| #[trigger]
            without_device(v, b.device_id).contains(x) <==> v.contains(x) && x.device_id
                != b.device_id,
{
    broadcast use vstd::seq_lib::group_filter_ensures;

    if !v.contains(b) {
        assert(v.push(b)[v.len() as int] == b);
    }
    let p = |x: BackendEntry| x.device_id != b.device_id;
    assert forall|x: BackendEntry| #[trigger]
        without_device(v, b.device_id).contains(x) implies v.contains(x) && x.device_id
        != b.device_id by {
        v.lemma_filter_contains_rev(p, x);
        let i = v.filter(p).index_of(x);
        assert(p(v.filter(p)[i]));
    }
    assert forall|x: BackendEntry| v.contains(x) && x.device_id != b.device_id implies #[trigger]
    without_device(v, b.device_id).contains(x) by {
        let i = v.index_of(x);
        assert(v[i] == x && p(v[i]));
    }
}

} // verus!
