//! Where the generated rules send what arrives at the router's own address:
//! to the clients that mapped a port, and to the targets of the balancers.
use vstd::prelude::*;

use crate::addr::{IpAddr, Ipv4Addr};
use crate::balancer::{
    all_v4, all_v6, balancer_from, chains, dnat_map, gotos, lb_table, map_lines, ruleset,
    service_chain, targets_v4, targets_v6, with_backend, without_device, BackendEntry, BalancerView, LbProtocol,
};
use crate::portmap::nft::{accept_rules, dnat_rules, portmap_rules};
use crate::portmap::registry::{MapProto, Mapping};
use crate::text::dec;
use crate::topology::types::{iface_from_is_first, CoreError, CoreView, NodeId, RouterView};

verus! {

// ── mapped ports ─────────────────────────────────────────────────────

/// A rule that sends what arrives at an address and port somewhere else.
pub struct Redirect {
    /// The address that the packet is sent to.
    pub at: Ipv4Addr,
    /// Its protocol.
    pub proto: MapProto,
    /// The port that it is sent to.
    pub port: u16,
    /// Where it goes instead.
    pub to: Ipv4Addr,
    /// The port that it goes to.
    pub to_port: u16,
}

impl Redirect {
    /// The rule on its line.
    pub open spec fn line(self) -> Seq<char> {
        "        ip daddr "@ + self.at.spec_text() + " "@ + (if self.proto == MapProto::Tcp {
            "tcp"@
        } else {
            "udp"@
        }) + " dport "@ + dec(self.port as nat) + " dnat to "@ + self.to.spec_text() + ":"@ + dec(
            self.to_port as nat,
        ) + "\n"@
    }
}

/// The lines of redirects, in order.
pub open spec fn redirect_lines(rs: Seq<Redirect>) -> Seq<char>
    decreases rs.len(),
{
    if rs.len() == 0 {
        Seq::empty()
    } else {
        redirect_lines(rs.drop_last()) + rs.last().line()
    }
}

/// Where a packet goes: the first redirect for its destination decides.
pub open spec fn redirected(rs: Seq<Redirect>, at: Ipv4Addr, proto: MapProto, port: u16) -> Option<
    (Ipv4Addr, u16),
>
    decreases rs.len(),
{
    if rs.len() == 0 {
        None
    } else if rs[0].at == at && rs[0].proto == proto && rs[0].port == port {
        Some((rs[0].to, rs[0].to_port))
    } else {
        redirected(rs.drop_first(), at, proto, port)
    }
}

/// A redirect that no earlier one stands before decides; where there is none,
/// the packet stays.
proof fn redirect_decides(rs: Seq<Redirect>, at: Ipv4Addr, proto: MapProto, port: u16, k: int)
    ensures
        0 <= k < rs.len() && rs[k].at == at && rs[k].proto == proto && rs[k].port == port && (forall|
            i: int,
        |
            0 <= i < k ==> !((#[trigger] rs[i]).at == at && rs[i].proto == proto && rs[i].port
                == port)) ==> redirected(rs, at, proto, port) == Some((rs[k].to, rs[k].to_port)),
        (forall|i: int|
            0 <= i < rs.len() ==> !((#[trigger] rs[i]).at == at && rs[i].proto == proto
                && rs[i].port == port)) ==> redirected(rs, at, proto, port) is None,
    decreases rs.len(),
{
    if rs.len() > 0 {
        let rest = rs.drop_first();
        redirect_decides(rest, at, proto, port, k - 1);
        assert forall|i: int| 0 <= i < rest.len() implies #[trigger] rest[i] == rs[i + 1] by {}
        if 0 < k < rs.len() {
            assert(rest[k - 1] == rs[k]);
        }
    }
}

/// The line that lets packets through to a client where they were redirected.
pub open spec fn opening(to: Ipv4Addr, proto: MapProto, port: u16) -> Seq<char> {
    "        ip daddr "@ + to.spec_text() + " "@ + (if proto == MapProto::Tcp {
        "tcp"@
    } else {
        "udp"@
    }) + " dport "@ + dec(port as nat) + " ct status dnat accept\n"@
}

/// Texts one behind the other.
pub open spec fn concat(parts: Seq<Seq<char>>) -> Seq<char>
    decreases parts.len(),
{
    if parts.len() == 0 {
        Seq::empty()
    } else {
        concat(parts.drop_last()) + parts.last()
    }
}

proof fn redirects_of_mappings(wan_ip: Ipv4Addr, ms: Seq<Mapping>) -> (rs: Seq<Redirect>)
    ensures
        rs.len() == ms.len(),
        dnat_rules(wan_ip, ms) == redirect_lines(rs),
        forall|i: int|
            0 <= i < ms.len() ==> #[trigger] rs[i] == (Redirect {
                at: wan_ip,
                proto: ms[i].proto,
                port: ms[i].external_port,
                to: ms[i].internal_ip,
                to_port: ms[i].internal_port,
            }),
    decreases ms.len(),
{
    if ms.len() == 0 {
        Seq::empty()
    } else {
        let m = ms.last();
        let before = redirects_of_mappings(wan_ip, ms.drop_last());
        let r = Redirect {
            at: wan_ip,
            proto: m.proto,
            port: m.external_port,
            to: m.internal_ip,
            to_port: m.internal_port,
        };
        let rs = before.push(r);
        assert(rs.drop_last() =~= before);
        assert(dnat_rules(wan_ip, ms) =~= redirect_lines(rs));
        rs
    }
}

proof fn openings_of_mappings(ms: Seq<Mapping>) -> (parts: Seq<Seq<char>>)
    ensures
        parts.len() == ms.len(),
        accept_rules(ms) == concat(parts),
        forall|i: int|
            0 <= i < ms.len() ==> #[trigger] parts[i] == opening(
                ms[i].internal_ip,
                ms[i].proto,
                ms[i].internal_port,
            ),
    decreases ms.len(),
{
    if ms.len() == 0 {
        Seq::empty()
    } else {
        let m = ms.last();
        let before = openings_of_mappings(ms.drop_last());
        let parts = before.push(opening(m.internal_ip, m.proto, m.internal_port));
        assert(parts.drop_last() =~= before);
        assert(accept_rules(ms) =~= concat(parts));
        parts
    }
}

/// Redirects of mappings send a packet to the first mapping of its port.
proof fn redirects_follow_mappings(wan_ip: Ipv4Addr, ms: Seq<Mapping>, rs: Seq<Redirect>)
    requires
        rs.len() == ms.len(),
        forall|i: int|
            0 <= i < ms.len() ==> #[trigger] rs[i] == (Redirect {
                at: wan_ip,
                proto: ms[i].proto,
                port: ms[i].external_port,
                to: ms[i].internal_ip,
                to_port: ms[i].internal_port,
            }),
    ensures
        forall|k: int|
            0 <= k < ms.len() && (forall|i: int|
                0 <= i < k ==> (#[trigger] ms[i]).proto != ms[k].proto || ms[i].external_port
                    != ms[k].external_port) ==> redirected(
                rs,
                wan_ip,
                (#[trigger] ms[k]).proto,
                ms[k].external_port,
            ) == Some((ms[k].internal_ip, ms[k].internal_port)),
        forall|at: Ipv4Addr, proto: MapProto, port: u16|
            at != wan_ip || (forall|i: int|
                0 <= i < ms.len() ==> (#[trigger] ms[i]).proto != proto || ms[i].external_port
                    != port) ==> #[trigger] redirected(rs, at, proto, port) is None,
{
    assert forall|k: int|
        0 <= k < ms.len() && (forall|i: int|
            0 <= i < k ==> (#[trigger] ms[i]).proto != ms[k].proto || ms[i].external_port
                != ms[k].external_port) implies redirected(
        rs,
        wan_ip,
        (#[trigger] ms[k]).proto,
        ms[k].external_port,
    ) == Some((ms[k].internal_ip, ms[k].internal_port)) by {
        assert forall|i: int| 0 <= i < k implies !((#[trigger] rs[i]).at == wan_ip && rs[i].proto
            == ms[k].proto && rs[i].port == ms[k].external_port) by {
            assert(ms[i].proto != ms[k].proto || ms[i].external_port != ms[k].external_port);
        }
        assert(rs[k].at == wan_ip);
        redirect_decides(rs, wan_ip, ms[k].proto, ms[k].external_port, k);
    }
    assert forall|at: Ipv4Addr, proto: MapProto, port: u16|
        at != wan_ip || (forall|i: int|
            0 <= i < ms.len() ==> (#[trigger] ms[i]).proto != proto || ms[i].external_port
                != port) implies #[trigger] redirected(rs, at, proto, port) is None by {
        assert forall|i: int| 0 <= i < rs.len() implies !((#[trigger] rs[i]).at == at
            && rs[i].proto == proto && rs[i].port == port) by {
            assert(at != wan_ip || ms[i].proto != proto || ms[i].external_port != port);
        }
        redirect_decides(rs, at, proto, port, 0);
    }
}

/// What the table of mapped ports does, read off its rules: a packet to the
/// external port of a mapping goes to the client's address and port, where no
/// earlier mapping has that port; every other packet stays as it is. For every
/// mapping, in order, there is one rule that lets the client's redirected packets
/// through.
pub proof fn mapped_ports_reach_their_clients(wan_ip: Ipv4Addr, ms: Seq<Mapping>) -> (r: (
    Seq<Redirect>,
    Seq<Seq<char>>,
))
    ensures
        portmap_rules(wan_ip, ms) == "table ip portmap {\n"@ + "    chain prerouting {\n"@
            + "        type nat hook prerouting priority -110; policy accept;\n"@ + redirect_lines(
            r.0,
        ) + "    }\n"@ + "    chain forward {\n"@
            + "        type filter hook forward priority -10; policy accept;\n"@ + concat(r.1)
            + "    }\n"@ + "}\n"@,
        forall|k: int|
            0 <= k < ms.len() && (forall|i: int|
                0 <= i < k ==> (#[trigger] ms[i]).proto != ms[k].proto || ms[i].external_port
                    != ms[k].external_port) ==> redirected(
                r.0,
                wan_ip,
                (#[trigger] ms[k]).proto,
                ms[k].external_port,
            ) == Some((ms[k].internal_ip, ms[k].internal_port)),
        forall|at: Ipv4Addr, proto: MapProto, port: u16|
            at != wan_ip || (forall|i: int|
                0 <= i < ms.len() ==> (#[trigger] ms[i]).proto != proto || ms[i].external_port
                    != port) ==> #[trigger] redirected(r.0, at, proto, port) is None,
        r.1.len() == ms.len(),
        forall|i: int|
            0 <= i < ms.len() ==> #[trigger] r.1[i] == opening(
                ms[i].internal_ip,
                ms[i].proto,
                ms[i].internal_port,
            ),
{
    let rs = redirects_of_mappings(wan_ip, ms);
    let parts = openings_of_mappings(ms);
    redirects_follow_mappings(wan_ip, ms, rs);
    (rs, parts)
}

// ── balancers ────────────────────────────────────────────────────────

proof fn jumps_of(
    bs: Seq<BalancerView>,
    targets: Seq<Seq<(IpAddr, u16)>>,
    family: Seq<char>,
    vip: Seq<char>,
    n: int,
) -> (jumps: Seq<Seq<char>>)
    requires
        0 <= n <= bs.len(),
    ensures
        jumps.len() == n,
        gotos(bs, targets, family, vip, n) == concat(jumps),
        forall|i: int|
            0 <= i < n ==> #[trigger] jumps[i] == (if targets[i].len() > 0 {
                "        "@ + family + " daddr "@ + vip + " "@ + (if bs[i].protocol
                    == LbProtocol::Tcp {
                    "tcp"@
                } else {
                    "udp"@
                }) + " dport "@ + dec(bs[i].port as nat) + " goto svc_"@ + bs[i].name + "\n"@
            } else {
                Seq::empty()
            }),
    decreases n,
{
    if n == 0 {
        Seq::empty()
    } else {
        let before = jumps_of(bs, targets, family, vip, n - 1);
        let last = if targets[n - 1].len() > 0 {
            "        "@ + family + " daddr "@ + vip + " "@ + (if bs[n - 1].protocol
                == LbProtocol::Tcp {
                "tcp"@
            } else {
                "udp"@
            }) + " dport "@ + dec(bs[n - 1].port as nat) + " goto svc_"@ + bs[n - 1].name + "\n"@
        } else {
            Seq::empty()
        };
        let jumps = before.push(last);
        assert(jumps.drop_last() =~= before);
        assert(gotos(bs, targets, family, vip, n) =~= concat(jumps));
        jumps
    }
}

proof fn decls_of(
    bs: Seq<BalancerView>,
    targets: Seq<Seq<(IpAddr, u16)>>,
    sep: Seq<char>,
    n: int,
) -> (decls: Seq<Seq<char>>)
    requires
        0 <= n <= bs.len(),
    ensures
        decls.len() == n,
        chains(bs, targets, sep, n) == concat(decls),
        forall|i: int|
            0 <= i < n ==> #[trigger] decls[i] == service_chain(bs[i], targets[i], sep),
    decreases n,
{
    if n == 0 {
        Seq::empty()
    } else {
        let before = decls_of(bs, targets, sep, n - 1);
        let decls = before.push(service_chain(bs[n - 1], targets[n - 1], sep));
        assert(decls.drop_last() =~= before);
        assert(chains(bs, targets, sep, n) =~= concat(decls));
        decls
    }
}

/// How the balancers of a router are reached, read off their table.
///
/// For every balancer that has a target, the prerouting chain holds, in order,
/// one rule that matches the router's address, the balancer's protocol and its
/// port and goes to the balancer's chain, and that chain is declared; for a
/// balancer without a target there is neither the rule nor the chain. What is
/// redirected leaves under the router's own address.
pub proof fn balancers_are_reached(
    bs: Seq<BalancerView>,
    targets: Seq<Seq<(IpAddr, u16)>>,
    family: Seq<char>,
    vip: Seq<char>,
    sep: Seq<char>,
) -> (r: (Seq<Seq<char>>, Seq<Seq<char>>, Seq<Seq<char>>))
    requires
        targets.len() == bs.len(),
    ensures
        lb_table(bs, targets, family, vip, sep) == "table "@ + family + " lb {\n"@ + concat(r.0)
            + "    chain prerouting {\n        type nat hook prerouting priority dstnat - 5; policy accept;\n"@
            + concat(r.1)
            + "    }\n    chain postrouting {\n        type nat hook postrouting priority srcnat; policy accept;\n        ct status dnat masquerade\n    }\n}\n"@,
        r.0.len() == bs.len(),
        r.1.len() == bs.len(),
        forall|i: int|
            0 <= i < bs.len() ==> #[trigger] r.1[i] == (if targets[i].len() > 0 {
                "        "@ + family + " daddr "@ + vip + " "@ + (if bs[i].protocol
                    == LbProtocol::Tcp {
                    "tcp"@
                } else {
                    "udp"@
                }) + " dport "@ + dec(bs[i].port as nat) + " goto svc_"@ + bs[i].name + "\n"@
            } else {
                Seq::empty()
            }),
        r.2.len() == bs.len(),
        forall|i: int|
            0 <= i < bs.len() && targets[i].len() > 0 ==> (#[trigger] r.0[i]) == "    chain svc_"@
                + bs[i].name + " {\n"@ + r.2[i] + "    }\n"@,
        forall|i: int|
            0 <= i < bs.len() && targets[i].len() > 0 ==> hands_on(
                #[trigger] r.2[i],
                targets[i],
                bs[i].protocol,
                sep,
            ),
        forall|i: int|
            0 <= i < bs.len() && targets[i].len() == 0 ==> (#[trigger] r.0[i]).len() == 0,
        forall|i: int|
            0 <= i < bs.len() ==> ((#[trigger] r.0[i]).len() > 0 <==> r.1[i].len() > 0),
{
    let decls = decls_of(bs, targets, sep, bs.len() as int);
    let jumps = jumps_of(bs, targets, family, vip, bs.len() as int);
    reveal_strlit("    }\n");
    reveal_strlit("\n");
    let rules = Seq::new(bs.len(), |i: int| dnat_map(targets[i], bs[i].protocol, sep));
    assert forall|i: int| 0 <= i < bs.len() && targets[i].len() > 0 implies hands_on(
        #[trigger] rules[i],
        targets[i],
        bs[i].protocol,
        sep,
    ) by {
        rule_hands_on(targets[i], bs[i].protocol, sep);
    }
    (decls, jumps, rules)
}

/// The line of a target in a map: its number, address and port.
pub open spec fn target_line(k: int, t: (IpAddr, u16)) -> Seq<char> {
    "            "@ + dec(k as nat) + " : "@ + t.0.spec_text() + " . "@ + dec(t.1 as nat) + ",\n"@
}

/// Whether a rule hands a protocol's connections to the targets: to the only one
/// there is, or to each of several in turn, under the numbers from zero on.
pub open spec fn hands_on(
    rule: Seq<char>,
    targets: Seq<(IpAddr, u16)>,
    protocol: LbProtocol,
    sep: Seq<char>,
) -> bool {
    let name = if protocol == LbProtocol::Tcp {
        "tcp"@
    } else {
        "udp"@
    };
    if targets.len() == 1 {
        rule == "        meta l4proto "@ + name + " dnat to "@ + targets[0].0.spec_text() + sep
            + dec(targets[0].1 as nat) + "\n"@
    } else {
        rule == "        meta l4proto "@ + name + " dnat to numgen inc mod "@ + dec(targets.len())
            + " map {\n"@ + concat(
            Seq::new(targets.len(), |k: int| target_line(k, targets[k])),
        ) + "        }\n"@
    }
}

proof fn map_lists_targets(targets: Seq<(IpAddr, u16)>, n: int)
    requires
        0 <= n <= targets.len(),
    ensures
        map_lines(targets, n) == concat(Seq::new(n as nat, |k: int| target_line(k, targets[k]))),
    decreases n,
{
    let all = Seq::new(n as nat, |k: int| target_line(k, targets[k]));
    if n > 0 {
        map_lists_targets(targets, n - 1);
        let before = Seq::new((n - 1) as nat, |k: int| target_line(k, targets[k]));
        assert(all.drop_last() =~= before);
    }
}

/// The rule of a balancer's chain hands connections to all its targets, each
/// once.
pub proof fn rule_hands_on(targets: Seq<(IpAddr, u16)>, protocol: LbProtocol, sep: Seq<char>)
    requires
        targets.len() > 0,
    ensures
        hands_on(dnat_map(targets, protocol, sep), targets, protocol, sep),
{
    map_lists_targets(targets, targets.len() as int);
}

/// The targets of a balancer come from its backends in order, one backend at a
/// time: one more backend adds, behind the others, the address of the interface
/// that carries its default route, with the backend's port, and adds nothing
/// where that interface has no such address. For IPv4 a device that is gone is an
/// error; for IPv6 it is passed over.
pub proof fn targets_follow_the_backends(
    c: CoreView,
    backends: Seq<BackendEntry>,
    b: BackendEntry,
    k: int,
)
    requires
        c.devices.contains_key(b.device_id),
        c.devices[b.device_id].wf(),
        0 <= k < c.devices[b.device_id].interfaces.len(),
        c.devices[b.device_id].interfaces[k].ifname == c.devices[b.device_id].default_via,
    ensures
        targets_v4(c, Seq::empty(), 0) == Ok::<Seq<(IpAddr, u16)>, CoreError>(Seq::empty()),
        targets_v6(c, Seq::empty(), 0) == Seq::<(IpAddr, u16)>::empty(),
        ({
            let n = backends.len() as int;
            let more = backends.push(b);
            let i = c.devices[b.device_id].interfaces[k];
            &&& targets_v4(c, backends, n) is Err ==> targets_v4(c, more, n + 1) == targets_v4(
                c,
                backends,
                n,
            )
            &&& targets_v4(c, backends, n) is Ok && i.ip is None ==> targets_v4(c, more, n + 1)
                == targets_v4(c, backends, n)
            &&& targets_v4(c, backends, n) is Ok && i.ip is Some ==> targets_v4(c, more, n + 1)
                == Ok::<Seq<(IpAddr, u16)>, CoreError>(
                (targets_v4(c, backends, n)->Ok_0).push((IpAddr::V4(i.ip->0), b.port)),
            )
            &&& i.ip_v6 is None ==> targets_v6(c, more, n + 1) == targets_v6(c, backends, n)
            &&& i.ip_v6 is Some ==> targets_v6(c, more, n + 1) == targets_v6(c, backends, n).push(
                (IpAddr::V6(i.ip_v6->0), b.port),
            )
        }),
{
    let n = backends.len() as int;
    let more = backends.push(b);
    let d = c.devices[b.device_id];
    earlier_backends_decide(c, backends, more, n);
    iface_from_is_first(d.interfaces, d.default_via, 0);
    let p = d.place(d.default_via)->0;
    if p < k {
        assert(d.interfaces[p].ifname != d.interfaces[k].ifname);
    }
    assert(p == k);
    assert(more[n] == b);
}

/// A backend whose device is gone has no target: for IPv4 that is an error.
pub proof fn gone_backends_have_no_target(
    c: CoreView,
    backends: Seq<BackendEntry>,
    b: BackendEntry,
)
    requires
        !c.devices.contains_key(b.device_id),
    ensures
        targets_v4(c, backends.push(b), backends.len() as int + 1) is Err,
        targets_v6(c, backends.push(b), backends.len() as int + 1) == targets_v6(
            c,
            backends,
            backends.len() as int,
        ),
{
    let more = backends.push(b);
    earlier_backends_decide(c, backends, more, backends.len() as int);
    assert(more[backends.len() as int] == b);
}

proof fn earlier_backends_decide(
    c: CoreView,
    a: Seq<BackendEntry>,
    b: Seq<BackendEntry>,
    n: int,
)
    requires
        n <= a.len(),
        n <= b.len(),
        forall|i: int| 0 <= i < n ==> #[trigger] a[i] == b[i],
    ensures
        targets_v4(c, a, n) == targets_v4(c, b, n),
        targets_v6(c, a, n) == targets_v6(c, b, n),
    decreases n,
{
    if n > 0 {
        earlier_backends_decide(c, a, b, n - 1);
        assert(a[n - 1] == b[n - 1]);
    }
}

/// The rules of a router's balancers are a table for IPv4 at the router's
/// upstream address and, where it has an IPv6 address, one for IPv6 at that, each
/// over the targets of its own kind. They need the upstream address, and that
/// every backend's device is there.
pub proof fn balancers_listen_upstream(router: RouterView, bs: Seq<BalancerView>, c: CoreView)
    ensures
        ruleset(router, bs, c) is Ok <==> router.upstream_ip is Some && forall|i: int|
            0 <= i < bs.len() ==> targets_v4(
                c,
                (#[trigger] bs[i]).backends,
                bs[i].backends.len() as int,
            ) is Ok,
        ruleset(router, bs, c) is Ok ==> ({
            let v4 = lb_table(
                bs,
                all_v4(c, bs),
                "ip"@,
                router.upstream_ip->0.spec_text(),
                " : "@,
            );
            ruleset(router, bs, c)->Ok_0 == match router.upstream_ip_v6 {
                None => v4,
                Some(a) => v4 + lb_table(bs, all_v6(c, bs), "ip6"@, a.spec_text(), " . "@),
            }
        }),
        all_v4(c, bs).len() == bs.len(),
        all_v6(c, bs).len() == bs.len(),
        forall|i: int|
            0 <= i < bs.len() ==> #[trigger] all_v4(c, bs)[i] == targets_v4(
                c,
                bs[i].backends,
                bs[i].backends.len() as int,
            )->Ok_0,
        forall|i: int|
            0 <= i < bs.len() ==> #[trigger] all_v6(c, bs)[i] == targets_v6(
                c,
                bs[i].backends,
                bs[i].backends.len() as int,
            ),
{
}

/// A backend that is added joins the others at the end, unless it is one of them.
pub proof fn added_backends_join_the_others(v: Seq<BackendEntry>, b: BackendEntry)
    ensures
        v.contains(b) ==> with_backend(v, b) == v,
        !v.contains(b) ==> with_backend(v, b).len() == v.len() + 1 && with_backend(v, b).take(
            v.len() as int,
        ) == v && with_backend(v, b)[v.len() as int] == b,
{
    if !v.contains(b) {
        assert(v.push(b).take(v.len() as int) =~= v);
    }
}

/// The backends of a device that is removed leave one by one; the others stay, in their
/// order.
pub proof fn removed_backends_leave_the_others(v: Seq<BackendEntry>, b: BackendEntry, gone: NodeId)
    ensures
        without_device(Seq::empty(), gone) == Seq::<BackendEntry>::empty(),
        b.device_id == gone ==> without_device(v.push(b), gone) == without_device(v, gone),
        b.device_id != gone ==> without_device(v.push(b), gone) == without_device(v, gone).push(b),
{
    let p = |x: BackendEntry| x.device_id != gone;
    reveal(Seq::filter);
    assert(v.push(b).drop_last() =~= v);
    assert(v.push(b).last() == b);
}

/// A balancer is looked up by its name, and the first of that name is found.
pub proof fn balancers_are_found_by_name(v: Seq<BalancerView>, name: Seq<char>, k: int)
    requires
        0 <= k < v.len(),
        v[k].name == name,
        forall|j: int| 0 <= j < k ==> (#[trigger] v[j]).name != name,
    ensures
        balancer_from(v, name, 0) == Some(k),
{
    found_from(v, name, 0, k);
}

proof fn found_from(v: Seq<BalancerView>, name: Seq<char>, i: int, k: int)
    requires
        0 <= i <= k < v.len(),
        v[k].name == name,
        forall|j: int| 0 <= j < k ==> (#[trigger] v[j]).name != name,
    ensures
        balancer_from(v, name, i) == Some(k),
    decreases k - i,
{
    if i < k {
        found_from(v, name, i + 1, k);
    }
}

} // verus!
