//! What the generated rules do to packets.
//!
//! A chain is read from its first rule to its last: the first rule that matches
//! a packet decides, and the chain's policy accepts what no rule matches. The
//! laws here name the rules that a generated text spells out, and say what
//! becomes of a packet that meets them.
use vstd::prelude::*;

use crate::addr::{Ipv4Addr, Ipv6Net};
use crate::firewall::{FirewallView, PolicyView};
use crate::nat_config::{NatConfig, NatFiltering, NatMapping, NatV6Mode};
use crate::nft::{
    dec_all, filter_table, firewall_rules, nat_rules, nat_v6_rules, policy_rules,
    postrouting, prerouting,
};
use crate::text::{dec, join};

verus! {

/// A transport protocol.
pub enum Transport {
    /// TCP.
    Tcp,
    /// UDP.
    Udp,
}

/// What a filter chain sees of a packet.
pub struct Packet {
    /// Whether it belongs to, or is related to, a connection that is known.
    pub established: bool,
    /// Whether it arrives on the WAN interface.
    pub from_wan: bool,
    /// Whether its sender was contacted from inside a while ago.
    pub contacted: bool,
    /// Its transport protocol, where that is TCP or UDP.
    pub transport: Option<Transport>,
    /// Its destination port.
    pub port: u16,
}

/// A rule of a filter chain.
pub enum Rule {
    /// Accepts what belongs to a known connection.
    AcceptEstablished,
    /// Accepts what arrives from the WAN and belongs to a known connection.
    AcceptEstablishedFromWan,
    /// Accepts what arrives from the WAN from a sender that was contacted.
    AcceptContactedFromWan,
    /// Drops what arrives from the WAN.
    DropFromWan,
    /// Accepts a protocol's packets to the listed ports.
    AcceptPorts(Transport, Seq<u16>),
    /// Drops a protocol's packets.
    DropAll(Transport),
}

impl Rule {
    /// Whether the rule matches a packet.
    pub open spec fn applies(self, p: Packet) -> bool {
        match self {
            Rule::AcceptEstablished => p.established,
            Rule::AcceptEstablishedFromWan => p.from_wan && p.established,
            Rule::AcceptContactedFromWan => p.from_wan && p.contacted,
            Rule::DropFromWan => p.from_wan,
            Rule::AcceptPorts(t, ports) => p.transport == Some(t) && exists|i: int|
                0 <= i < ports.len() && #[trigger] ports[i] == p.port,
            Rule::DropAll(t) => p.transport == Some(t),
        }
    }

    /// Whether the rule drops what it matches.
    pub open spec fn drops(self) -> bool {
        self is DropFromWan || self is DropAll
    }

    /// The rule on its line.
    pub open spec fn line(self, wan_if: Seq<char>) -> Seq<char> {
        match self {
            Rule::AcceptEstablished => "        ct state established,related accept\n"@,
            Rule::AcceptEstablishedFromWan => "        iif \""@ + wan_if
                + "\" ct state established,related accept\n"@,
            Rule::AcceptContactedFromWan => "        iif \""@ + wan_if
                + "\" ip saddr @contacted accept\n"@,
            Rule::DropFromWan => "        iif \""@ + wan_if + "\" drop\n"@,
            Rule::AcceptPorts(t, ports) => "        "@ + transport_name(t) + " dport { "@
                + port_list(ports) + " } accept\n"@,
            Rule::DropAll(t) => "        meta l4proto "@ + transport_name(t) + " drop\n"@,
        }
    }
}

/// The name of a protocol in a rule.
pub open spec fn transport_name(t: Transport) -> Seq<char> {
    match t {
        Transport::Tcp => "tcp"@,
        Transport::Udp => "udp"@,
    }
}

/// Ports, with a comma and a blank between neighbours.
pub open spec fn port_list(ports: Seq<u16>) -> Seq<char>
    decreases ports.len(),
{
    if ports.len() == 0 {
        Seq::empty()
    } else if ports.len() == 1 {
        dec(ports[0] as nat)
    } else {
        port_list(ports.drop_last()) + ", "@ + dec(ports.last() as nat)
    }
}

/// The lines of a chain, from its first rule to its last.
pub open spec fn lines(chain: Seq<Rule>, wan_if: Seq<char>) -> Seq<char>
    decreases chain.len(),
{
    if chain.len() == 0 {
        Seq::empty()
    } else {
        chain[0].line(wan_if) + lines(chain.drop_first(), wan_if)
    }
}

/// Whether a chain lets a packet through: the first rule that matches decides,
/// and where none does the packet passes.
pub open spec fn passes(chain: Seq<Rule>, p: Packet) -> bool
    decreases chain.len(),
{
    if chain.len() == 0 {
        true
    } else if chain[0].applies(p) {
        !chain[0].drops()
    } else {
        passes(chain.drop_first(), p)
    }
}

/// Two chains one behind the other: the second decides what the first leaves
/// open.
proof fn chained(a: Seq<Rule>, b: Seq<Rule>, wan_if: Seq<char>, p: Packet)
    ensures
        lines(a + b, wan_if) == lines(a, wan_if) + lines(b, wan_if),
        (forall|i: int| 0 <= i < a.len() ==> !(#[trigger] a[i]).applies(p)) ==> passes(a + b, p)
            == passes(b, p),
        (exists|i: int| 0 <= i < a.len() && (#[trigger] a[i]).applies(p)) ==> passes(a + b, p)
            == passes(a, p),
    decreases a.len(),
{
    if a.len() == 0 {
        assert(a + b =~= b);
    } else {
        assert((a + b).drop_first() =~= a.drop_first() + b);
        chained(a.drop_first(), b, wan_if, p);
        assert(lines(a + b, wan_if) =~= lines(a, wan_if) + lines(b, wan_if));
        let rest = a.drop_first();
        if forall|i: int| 0 <= i < a.len() ==> !(#[trigger] a[i]).applies(p) {
            assert forall|i: int| 0 <= i < rest.len() implies !(#[trigger] rest[i]).applies(p) by {
                assert(rest[i] == a[i + 1]);
            }
        }
        if (exists|i: int| 0 <= i < a.len() && (#[trigger] a[i]).applies(p)) && !a[0].applies(p) {
            let k = choose|i: int| 0 <= i < a.len() && (#[trigger] a[i]).applies(p);
            assert(rest[k - 1].applies(p));
        }
    }
}

/// Chains of up to three rules.
proof fn short_chain(chain: Seq<Rule>, wan_if: Seq<char>)
    ensures
        chain.len() == 1 ==> lines(chain, wan_if) == chain[0].line(wan_if),
        chain.len() == 2 ==> lines(chain, wan_if) == chain[0].line(wan_if) + chain[1].line(wan_if),
        chain.len() == 3 ==> lines(chain, wan_if) == chain[0].line(wan_if) + chain[1].line(wan_if)
            + chain[2].line(wan_if),
        forall|p: Packet|
            chain.len() == 1 ==> #[trigger] passes(chain, p) == (!chain[0].applies(p)
                || !chain[0].drops()),
        forall|p: Packet|
            chain.len() == 2 ==> #[trigger] passes(chain, p) == (if chain[0].applies(p) {
                !chain[0].drops()
            } else {
                !chain[1].applies(p) || !chain[1].drops()
            }),
        forall|p: Packet|
            chain.len() == 3 ==> #[trigger] passes(chain, p) == (if chain[0].applies(p) {
                !chain[0].drops()
            } else if chain[1].applies(p) {
                !chain[1].drops()
            } else {
                !chain[2].applies(p) || !chain[2].drops()
            }),
{
    reveal_with_fuel(lines, 4);
    reveal_with_fuel(passes, 4);
    if 1 <= chain.len() <= 3 {
        let rest = chain.drop_first();
        let last = rest.drop_first();
        assert(chain.len() >= 2 ==> rest[0] == chain[1]);
        assert(chain.len() >= 3 ==> last[0] == chain[2]);
        if chain.len() == 1 {
            assert(lines(chain, wan_if) =~= chain[0].line(wan_if));
        } else if chain.len() == 2 {
            assert(lines(chain, wan_if) =~= chain[0].line(wan_if) + chain[1].line(wan_if));
        } else {
            assert(lines(chain, wan_if) =~= chain[0].line(wan_if) + chain[1].line(wan_if)
                + chain[2].line(wan_if));
        }
    }
}

/// Ports in decimal, joined.
proof fn ports_joined(ports: Seq<u16>)
    ensures
        join(dec_all(ports), ", "@) == port_list(ports),
    decreases ports.len(),
{
    if ports.len() > 1 {
        ports_joined(ports.drop_last());
        assert(dec_all(ports).drop_last() =~= dec_all(ports.drop_last()));
    }
}

/// The rules of an outbound policy, read as a chain, let a packet of the
/// protocol to a port through exactly where the policy allows that port: all
/// ports, the listed ports and no other, or none. Other packets they leave
/// alone.
pub proof fn policy_lets_through(policy: PolicyView, t: Transport, wan_if: Seq<char>) -> (chain:
    Seq<Rule>)
    ensures
        policy_rules(
            policy,
            if t is Tcp {
                "tcp"@
            } else {
                "udp"@
            },
        ) == lines(chain, wan_if),
        forall|p: Packet|
            p.transport == Some(t) ==> #[trigger] passes(chain, p) == match policy {
                PolicyView::AllowAll => true,
                PolicyView::Allow(ports) => exists|i: int|
                    0 <= i < ports.len() && #[trigger] ports[i] == p.port,
                PolicyView::BlockAll => false,
            },
        forall|p: Packet|
            p.transport == Some(t) ==> #[trigger] passes(chain, p) == policy.allows(p.port),
        forall|p: Packet| p.transport != Some(t) ==> #[trigger] passes(chain, p),
        forall|i: int| 0 <= i < chain.len() ==> match #[trigger] chain[i] {
            Rule::AcceptPorts(u, _) => u == t,
            Rule::DropAll(u) => u == t,
            _ => false,
        },
{
    reveal_strlit("");
    match policy {
        PolicyView::AllowAll => {
            let chain = Seq::<Rule>::empty();
            assert(policy_rules(policy, "tcp"@) =~= lines(chain, wan_if));
            assert(policy_rules(policy, "udp"@) =~= lines(chain, wan_if));
            chain
        },
        PolicyView::Allow(ports) => {
            assert forall|x: u16| ports.contains(x) == (exists|i: int|
                0 <= i < ports.len() && #[trigger] ports[i] == x) by {}
            let first = Rule::AcceptPorts(t, ports);
            let second = Rule::DropAll(t);
            ports_joined(ports);
            if ports.len() > 0 {
                let chain = seq![first, second];
                short_chain(chain, wan_if);
                assert(policy_rules(policy, transport_name(t)) =~= lines(chain, wan_if));
                chain
            } else {
                let chain = seq![second];
                short_chain(chain, wan_if);
                assert(policy_rules(policy, transport_name(t)) =~= lines(chain, wan_if));
                chain
            }
        },
        PolicyView::BlockAll => {
            let second = Rule::DropAll(t);
            let chain = seq![second];
            short_chain(chain, wan_if);
            assert(policy_rules(policy, transport_name(t)) =~= lines(chain, wan_if));
            chain
        },
    }
}

/// What a firewall does, read off its table: packets of known connections pass;
/// of the others those from the WAN are dropped where inbound traffic is blocked,
/// and a TCP or UDP packet passes only to a port that the policy of its protocol
/// allows.
pub proof fn firewall_lets_through(cfg: FirewallView, wan_if: Seq<char>) -> (chain: Seq<Rule>)
    ensures
        firewall_rules(cfg, wan_if)
            == "table inet fw {\n    chain forward {\n        type filter hook forward priority 10; policy accept;\n"@
            + lines(chain, wan_if) + "    }\n}\n"@,
        forall|p: Packet| #[trigger]
            passes(chain, p) == (p.established || {
                &&& !(cfg.block_inbound && p.from_wan)
                &&& p.transport == Some(Transport::Tcp) ==> cfg.outbound_tcp.allows(p.port)
                &&& p.transport == Some(Transport::Udp) ==> cfg.outbound_udp.allows(p.port)
            }),
{
    reveal_strlit("");
    let tcp = policy_lets_through(cfg.outbound_tcp, Transport::Tcp, wan_if);
    let udp = policy_lets_through(cfg.outbound_udp, Transport::Udp, wan_if);
    let known = Rule::AcceptEstablished;
    let inbound = Rule::DropFromWan;
    let head = if cfg.block_inbound {
        seq![known, inbound]
    } else {
        seq![known]
    };
    short_chain(head, wan_if);
    let chain = head + (tcp + udp);
    assert forall|p: Packet| #[trigger]
        passes(chain, p) == (p.established || {
            &&& !(cfg.block_inbound && p.from_wan)
            &&& p.transport == Some(Transport::Tcp) ==> cfg.outbound_tcp.allows(p.port)
            &&& p.transport == Some(Transport::Udp) ==> cfg.outbound_udp.allows(p.port)
        }) by {
        chained(head, tcp + udp, wan_if, p);
        chained(tcp, udp, wan_if, p);
        assert(head[0] == known);
        if cfg.block_inbound {
            assert(head[1] == inbound);
        }
        passing_is_silent(tcp, Transport::Tcp, p);
        passing_is_silent(udp, Transport::Udp, p);
    }
    let any = Packet {
        established: true,
        from_wan: true,
        contacted: true,
        transport: None,
        port: 0,
    };
    chained(head, tcp + udp, wan_if, any);
    chained(tcp, udp, wan_if, any);
    firewall_head();
    assert(firewall_rules(cfg, wan_if)
        =~= "table inet fw {\n    chain forward {\n        type filter hook forward priority 10; policy accept;\n"@
        + lines(chain, wan_if) + "    }\n}\n"@);
    chain
}

/// A chain that speaks of one protocol only leaves other packets alone.
proof fn passing_is_silent(chain: Seq<Rule>, t: Transport, p: Packet)
    requires
        forall|i: int| 0 <= i < chain.len() ==> match #[trigger] chain[i] {
            Rule::AcceptPorts(u, _) => u == t,
            Rule::DropAll(u) => u == t,
            _ => false,
        },
    ensures
        p.transport != Some(t) ==> forall|i: int|
            0 <= i < chain.len() ==> !(#[trigger] chain[i]).applies(p),
        (forall|i: int| 0 <= i < chain.len() ==> !(#[trigger] chain[i]).applies(p)) ==> passes(
            chain,
            p,
        ),
    decreases chain.len(),
{
    if chain.len() > 0 {
        let rest = chain.drop_first();
        assert forall|i: int| 0 <= i < rest.len() implies match #[trigger] rest[i] {
            Rule::AcceptPorts(u, _) => u == t,
            Rule::DropAll(u) => u == t,
            _ => false,
        } by {
            assert(rest[i] == chain[i + 1]);
        }
        passing_is_silent(rest, t, p);
        if forall|i: int| 0 <= i < chain.len() ==> !(#[trigger] chain[i]).applies(p) {
            assert forall|i: int| 0 <= i < rest.len() implies !(#[trigger] rest[i]).applies(p) by {
                assert(rest[i] == chain[i + 1]);
            }
        }
    }
}

/// The table's opening and its first rule.
proof fn firewall_head()
    ensures
        "table inet fw {\n    chain forward {\n        type filter hook forward priority 10; policy accept;\n        ct state established,related accept\n"@
            == "table inet fw {\n    chain forward {\n        type filter hook forward priority 10; policy accept;\n"@
            + "        ct state established,related accept\n"@,
{
    reveal_strlit(
        "table inet fw {\n    chain forward {\n        type filter hook forward priority 10; policy accept;\n        ct state established,related accept\n",
    );
    reveal_strlit(
        "table inet fw {\n    chain forward {\n        type filter hook forward priority 10; policy accept;\n",
    );
    reveal_strlit("        ct state established,related accept\n");
    assert("table inet fw {\n    chain forward {\n        type filter hook forward priority 10; policy accept;\n        ct state established,related accept\n"@
        =~= "table inet fw {\n    chain forward {\n        type filter hook forward priority 10; policy accept;\n"@
        + "        ct state established,related accept\n"@);
}

/// Which packets from the WAN reach the inside behind a NAT, by its filtering
/// behavior: any; those of senders that were contacted; or only those of known
/// connections. What does not come from the WAN always passes. The senders that
/// were contacted are those that a packet was sent to, for as long as a UDP
/// stream lasts.
#[verifier::rlimit(60)]
#[verifier::spinoff_prover]
pub proof fn nat_filter_lets_through(cfg: NatConfig, wan_if: Seq<char>) -> (chain: Seq<Rule>)
    ensures
        filter_table(cfg, wan_if) == match cfg.filtering {
            NatFiltering::EndpointIndependent => Seq::empty(),
            NatFiltering::AddressDependent =>
                "\ntable ip filter {\n    set contacted {\n        type ipv4_addr\n        flags dynamic,timeout\n        timeout "@
                + dec(cfg.timeouts.udp_stream as nat) + "s\n        size 8192\n    }\n"@
                + "    chain forward {\n        type filter hook forward priority 0; policy accept;\n"@
                + lines(chain, wan_if) + "    }\n"@
                + "    chain postrouting {\n        type filter hook postrouting priority 0; policy accept;\n        oif \""@
                + wan_if + "\" update @contacted { ip daddr }\n    }\n}"@,
            NatFiltering::AddressAndPortDependent => "\ntable ip filter {\n"@
                + "    chain forward {\n        type filter hook forward priority 0; policy accept;\n"@
                + lines(chain, wan_if) + "    }\n"@ + "}"@,
        },
        forall|p: Packet| #[trigger]
            passes(chain, p) == (!p.from_wan || match cfg.filtering {
                NatFiltering::EndpointIndependent => true,
                NatFiltering::AddressDependent => p.established || p.contacted,
                NatFiltering::AddressAndPortDependent => p.established,
            }),
{
    reveal_strlit("");
    match cfg.filtering {
        NatFiltering::EndpointIndependent => Seq::empty(),
        NatFiltering::AddressDependent => {
            let chain = seq![
                Rule::AcceptEstablishedFromWan,
                Rule::AcceptContactedFromWan,
                Rule::DropFromWan,
            ];
            short_chain(chain, wan_if);
            contacted_text();
            filter_text();
            assert(filter_table(cfg, wan_if)
                =~= "\ntable ip filter {\n    set contacted {\n        type ipv4_addr\n        flags dynamic,timeout\n        timeout "@
                + dec(cfg.timeouts.udp_stream as nat) + "s\n        size 8192\n    }\n"@
                + "    chain forward {\n        type filter hook forward priority 0; policy accept;\n"@
                + lines(chain, wan_if) + "    }\n"@
                + "    chain postrouting {\n        type filter hook postrouting priority 0; policy accept;\n        oif \""@
                + wan_if + "\" update @contacted { ip daddr }\n    }\n}"@);
            chain
        },
        NatFiltering::AddressAndPortDependent => {
            let chain = seq![Rule::AcceptEstablishedFromWan, Rule::DropFromWan];
            short_chain(chain, wan_if);
            filter_text();
            assert(filter_table(cfg, wan_if) =~= "\ntable ip filter {\n"@
                + "    chain forward {\n        type filter hook forward priority 0; policy accept;\n"@
                + lines(chain, wan_if) + "    }\n"@ + "}"@);
            chain
        },
    }
}

/// The text between the parts of a filter table, cut where its lines begin.
proof fn filter_text()
    ensures
        "\ntable ip filter {\n    chain forward {\n        type filter hook forward priority 0; policy accept;\n        iif \""@
            == "\ntable ip filter {\n"@
            + "    chain forward {\n        type filter hook forward priority 0; policy accept;\n"@
            + "        iif \""@,
        "\" ct state established,related accept\n        iif \""@
            == "\" ct state established,related accept\n"@ + "        iif \""@,
        "\" drop\n    }\n}"@ == "\" drop\n"@ + "    }\n"@ + "}"@,
{
    reveal_strlit(
        "\ntable ip filter {\n    chain forward {\n        type filter hook forward priority 0; policy accept;\n        iif \"",
    );
    reveal_strlit("\ntable ip filter {\n");
    reveal_strlit(
        "    chain forward {\n        type filter hook forward priority 0; policy accept;\n",
    );
    reveal_strlit("        iif \"");
    reveal_strlit("\" ct state established,related accept\n        iif \"");
    reveal_strlit("\" ct state established,related accept\n");
    reveal_strlit("\" drop\n    }\n}");
    reveal_strlit("\" drop\n");
    reveal_strlit("    }\n");
    reveal_strlit("}");
}

/// The text around the set of contacted addresses, cut where its lines begin.
proof fn contacted_text()
    ensures
        "s\n        size 8192\n    }\n    chain forward {\n        type filter hook forward priority 0; policy accept;\n        iif \""@
            == "s\n        size 8192\n    }\n"@
            + "    chain forward {\n        type filter hook forward priority 0; policy accept;\n"@
            + "        iif \""@,
        "\" ip saddr @contacted accept\n        iif \""@ == "\" ip saddr @contacted accept\n"@
            + "        iif \""@,
        "\" drop\n    }\n    chain postrouting {\n        type filter hook postrouting priority 0; policy accept;\n        oif \""@
            == "\" drop\n"@ + "    }\n"@
            + "    chain postrouting {\n        type filter hook postrouting priority 0; policy accept;\n        oif \""@,
{
    reveal_strlit(
        "s\n        size 8192\n    }\n    chain forward {\n        type filter hook forward priority 0; policy accept;\n        iif \"",
    );
    reveal_strlit("s\n        size 8192\n    }\n");
    reveal_strlit(
        "    chain forward {\n        type filter hook forward priority 0; policy accept;\n",
    );
    reveal_strlit("        iif \"");
    reveal_strlit("\" ip saddr @contacted accept\n        iif \"");
    reveal_strlit("\" ip saddr @contacted accept\n");
    reveal_strlit(
        "\" drop\n    }\n    chain postrouting {\n        type filter hook postrouting priority 0; policy accept;\n        oif \"",
    );
    reveal_strlit("\" drop\n");
    reveal_strlit("    }\n");
    reveal_strlit(
        "    chain postrouting {\n        type filter hook postrouting priority 0; policy accept;\n        oif \"",
    );
}

/// What address translation sees of a packet that leaves the router.
pub struct Outgoing {
    /// Whether it leaves through the WAN interface.
    pub to_wan: bool,
    /// Whether it is a UDP packet.
    pub udp: bool,
    /// Whether its destination was rewritten on its way in.
    pub redirected: bool,
}

/// What becomes of a packet's source.
pub enum Source {
    /// It stays as it is.
    Kept,
    /// It becomes this address; the port is kept where it is free.
    Address(Ipv4Addr),
    /// It becomes the address of the interface that the packet leaves by.
    Interface,
    /// It becomes the address of the interface, with a port picked at random.
    InterfaceAtRandom,
}

/// A rule of a chain that rewrites sources.
pub enum SourceRule {
    /// Takes the interface's address for packets that were redirected.
    HideRedirected,
    /// Notes which address and port a UDP packet to the WAN comes from, under
    /// its source port.
    Remember,
    /// Takes a fixed address for packets to the WAN.
    Fixed(Ipv4Addr),
    /// Takes the WAN interface's address and a random port.
    AtRandom,
}

impl SourceRule {
    /// What the rule decides on a packet's source, if anything.
    pub open spec fn decides(self, o: Outgoing) -> Option<Source> {
        match self {
            SourceRule::HideRedirected => if o.redirected {
                Some(Source::Interface)
            } else {
                None
            },
            SourceRule::Remember => None,
            SourceRule::Fixed(ip) => if o.to_wan {
                Some(Source::Address(ip))
            } else {
                None
            },
            SourceRule::AtRandom => if o.to_wan {
                Some(Source::InterfaceAtRandom)
            } else {
                None
            },
        }
    }

    /// The rule's text.
    pub open spec fn text(self, wan_if: Seq<char>) -> Seq<char> {
        match self {
            SourceRule::HideRedirected => "        ct status dnat masquerade"@,
            SourceRule::Remember => "        oif \""@ + wan_if
                + "\" meta l4proto udp update @fullcone { udp sport timeout 300s : ip saddr . udp sport }"@,
            SourceRule::Fixed(ip) => "        oif \""@ + wan_if + "\" snat to "@ + ip.spec_text(),
            SourceRule::AtRandom => "        oif \""@ + wan_if + "\" masquerade random"@,
        }
    }
}

/// The lines of a chain that rewrites sources.
pub open spec fn source_lines(chain: Seq<SourceRule>, wan_if: Seq<char>) -> Seq<char>
    decreases chain.len(),
{
    if chain.len() == 0 {
        Seq::empty()
    } else {
        chain[0].text(wan_if) + "\n"@ + source_lines(chain.drop_first(), wan_if)
    }
}

/// What a chain makes of a packet's source: the first rule that decides it.
pub open spec fn source_of(chain: Seq<SourceRule>, o: Outgoing) -> Source
    decreases chain.len(),
{
    if chain.len() == 0 {
        Source::Kept
    } else {
        match chain[0].decides(o) {
            Some(s) => s,
            None => source_of(chain.drop_first(), o),
        }
    }
}

/// Whether a chain notes where a packet comes from: where it gets as far as the
/// rule that does.
pub open spec fn remembers(chain: Seq<SourceRule>, o: Outgoing) -> bool
    decreases chain.len(),
{
    if chain.len() == 0 || chain[0].decides(o) is Some {
        false
    } else {
        (chain[0] is Remember && o.to_wan && o.udp) || remembers(chain.drop_first(), o)
    }
}

/// What a NAT does to packets that leave, read off its rules.
///
/// With endpoint-independent mapping the source becomes the WAN address, with the
/// same port for every destination, and the address and port that it stands for
/// are noted; with endpoint-dependent mapping the port is picked at random, and
/// nothing is noted. With hairpin a packet that was redirected takes the address
/// of the interface that it leaves by.
pub proof fn nat_rewrites_sources(cfg: NatConfig, wan_if: Seq<char>, wan_ip: Ipv4Addr) -> (chain:
    Seq<SourceRule>)
    ensures
        postrouting(cfg, wan_if, wan_ip) + "\n"@ == source_lines(chain, wan_if),
        forall|o: Outgoing| #[trigger]
            source_of(chain, o) == (if cfg.hairpin && o.redirected {
                Source::Interface
            } else if !o.to_wan {
                Source::Kept
            } else if cfg.mapping == NatMapping::EndpointIndependent {
                Source::Address(wan_ip)
            } else {
                Source::InterfaceAtRandom
            }),
        forall|o: Outgoing| #[trigger]
            remembers(chain, o) == (cfg.mapping == NatMapping::EndpointIndependent && o.to_wan
                && o.udp && !(cfg.hairpin && o.redirected)),
{
    let hairpin = if cfg.hairpin {
        seq![SourceRule::HideRedirected]
    } else {
        Seq::empty()
    };
    let chain = if cfg.mapping == NatMapping::EndpointIndependent {
        hairpin.push(SourceRule::Remember).push(SourceRule::Fixed(wan_ip))
    } else {
        hairpin.push(SourceRule::AtRandom)
    };
    reveal_with_fuel(source_lines, 4);
    reveal_with_fuel(source_of, 4);
    reveal_with_fuel(remembers, 4);
    let rest = chain.drop_first();
    let last = rest.drop_first();
    assert(chain.len() >= 2 ==> rest[0] == chain[1]);
    assert(chain.len() >= 3 ==> last[0] == chain[2]);
    source_text();
    reveal_strlit("");
    assert(postrouting(cfg, wan_if, wan_ip) + "\n"@ =~= source_lines(chain, wan_if));
    chain
}

/// The text of rules on sources, cut where its lines end.
proof fn source_text()
    ensures
        "        ct status dnat masquerade\n"@ == "        ct status dnat masquerade"@ + "\n"@,
        "\" meta l4proto udp update @fullcone { udp sport timeout 300s : ip saddr . udp sport }\n        oif \""@
            == "\" meta l4proto udp update @fullcone { udp sport timeout 300s : ip saddr . udp sport }"@
            + "\n"@ + "        oif \""@,
{
    reveal_strlit("        ct status dnat masquerade\n");
    reveal_strlit("        ct status dnat masquerade");
    reveal_strlit("\n");
    reveal_strlit(
        "\" meta l4proto udp update @fullcone { udp sport timeout 300s : ip saddr . udp sport }\n        oif \"",
    );
    reveal_strlit(
        "\" meta l4proto udp update @fullcone { udp sport timeout 300s : ip saddr . udp sport }",
    );
    reveal_strlit("        oif \"");
}

/// What address translation sees of a packet that comes in.
pub struct Incoming {
    /// Whether it arrives on the WAN interface.
    pub from_wan: bool,
    /// Whether it is a UDP packet.
    pub udp: bool,
    /// Its destination.
    pub to: Ipv4Addr,
}

/// A rule that looks a UDP packet's destination port up among the sources that
/// were noted, and sends the packet there.
pub enum LookupRule {
    /// For packets to this address.
    To(Ipv4Addr),
    /// For packets from the WAN.
    FromWan,
}

impl LookupRule {
    /// Whether the rule applies to a packet.
    pub open spec fn applies(self, i: Incoming) -> bool {
        i.udp && match self {
            LookupRule::To(ip) => i.to == ip,
            LookupRule::FromWan => i.from_wan,
        }
    }

    /// The rule's text.
    pub open spec fn text(self, wan_if: Seq<char>) -> Seq<char> {
        match self {
            LookupRule::To(ip) => "        ip daddr "@ + ip.spec_text()
                + " meta l4proto udp dnat to udp dport map @fullcone"@,
            LookupRule::FromWan => "        iif \""@ + wan_if
                + "\" meta l4proto udp dnat to udp dport map @fullcone"@,
        }
    }
}

/// What a NAT does to packets that come in, read off its rules.
///
/// With endpoint-independent mapping a UDP packet goes to where packets from its
/// destination port came from: any packet to the WAN address with hairpin, one
/// that arrives on the WAN without. With endpoint-dependent mapping no packet is
/// redirected.
pub proof fn nat_redirects(cfg: NatConfig, wan_if: Seq<char>, wan_ip: Ipv4Addr) -> (rule: Option<
    LookupRule,
>)
    ensures
        prerouting(cfg, wan_if, wan_ip) == match rule {
            Some(r) => r.text(wan_if),
            None => Seq::empty(),
        },
        forall|i: Incoming|
            (rule is Some && #[trigger] rule->0.applies(i)) == (cfg.mapping
                == NatMapping::EndpointIndependent && i.udp && if cfg.hairpin {
                i.to == wan_ip
            } else {
                i.from_wan
            }),
{
    reveal_strlit("");
    if cfg.mapping == NatMapping::EndpointIndependent {
        if cfg.hairpin {
            Some(LookupRule::To(wan_ip))
        } else {
            Some(LookupRule::FromWan)
        }
    } else {
        None
    }
}

/// The NAT table holds both chains, in front of the filter, with the map of the
/// noted sources where it is used, and without it where it is not.
pub proof fn nat_table_holds_both_chains(cfg: NatConfig, wan_if: Seq<char>, wan_ip: Ipv4Addr)
    ensures
        nat_rules(cfg, wan_if, wan_ip) == "\ntable ip nat {\n"@ + (if cfg.mapping
            == NatMapping::EndpointIndependent {
            "    map fullcone {\n        type inet_service : ipv4_addr . inet_service\n        flags dynamic,timeout\n        timeout 300s\n        size 65536\n    }"@
        } else {
            Seq::empty()
        })
            + "\n    chain prerouting {\n        type nat hook prerouting priority dstnat; policy accept;\n"@
            + prerouting(cfg, wan_if, wan_ip)
            + "\n    }\n    chain postrouting {\n        type nat hook postrouting priority "@ + (
        if cfg.mapping == NatMapping::EndpointIndependent {
            "srcnat"@
        } else {
            "100"@
        }) + "; policy accept;\n"@ + postrouting(cfg, wan_if, wan_ip) + "\n    }\n}\n"@
            + filter_table(cfg, wan_if) + "\n"@,
{
    reveal_strlit("");
}

/// IPv6 translation, read off its rules: prefix translation replaces the LAN
/// prefix by the WAN prefix on the way out and the WAN prefix by the LAN prefix
/// on the way in; masquerading hides all sources behind the router; the other
/// modes have no rules.
pub proof fn nat_v6_translates(
    mode: NatV6Mode,
    wan_if: Seq<char>,
    lan: Ipv6Net,
    wan: Ipv6Net,
)
    ensures
        nat_v6_rules(mode, wan_if, lan, wan) is Some <==> mode == NatV6Mode::Nptv6 || mode
            == NatV6Mode::Masquerade,
        mode == NatV6Mode::Nptv6 ==> nat_v6_rules(mode, wan_if, lan, wan)->0
            == "\ntable ip6 nat {\n    chain postrouting {\n        type nat hook postrouting priority 100; policy accept;\n        oif \""@
            + wan_if + "\" ip6 saddr "@ + lan.spec_text() + " snat prefix to "@ + wan.spec_text()
            + "\n    }\n    chain prerouting {\n        type nat hook prerouting priority -100; policy accept;\n        iif \""@
            + wan_if + "\" ip6 daddr "@ + wan.spec_text() + " dnat prefix to "@ + lan.spec_text()
            + "\n    }\n}\n"@,
        mode == NatV6Mode::Masquerade ==> nat_v6_rules(mode, wan_if, lan, wan)->0
            == "\ntable ip6 nat {\n    chain postrouting {\n        type nat hook postrouting priority 100; policy accept;\n        oif \""@
            + wan_if
            + "\" masquerade\n    }\n    chain forward {\n        type filter hook forward priority 0; policy accept;\n        meta l4proto ipv6-icmp accept\n    }\n}\n"@,
{
}

} // verus!
