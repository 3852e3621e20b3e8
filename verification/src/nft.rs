//! The nftables rules of a router: NAT, IPv6 prefix translation, firewall.
use vstd::prelude::*;

use crate::addr::{Ipv4Addr, Ipv6Addr, Ipv6Net};
use crate::firewall::{Firewall, FirewallConfig, FirewallView, PolicyView, PortPolicy};
use crate::nat_config::{
    ConntrackTimeouts, NatConfig, NatConfigError, NatFiltering, NatMapping, NatV6Mode,
};
use crate::text::{dec, dec_string, join, join_strings, push_dec, views};

verus! {

/// Whether the NAT keeps the fullcone map: it does with Endpoint-Independent
/// Mapping.
pub fn uses_fullcone_map(cfg: &NatConfig) -> (r: bool)
    ensures
        r == cfg.mapping is EndpointIndependent,
{
    matches!(cfg.mapping, NatMapping::EndpointIndependent)
}

/// The declaration of the fullcone map.
pub const FULLCONE_MAP: &'static str = r#"    map fullcone {
        type inet_service : ipv4_addr . inet_service
        flags dynamic,timeout
        timeout 300s
        size 65536
    }"#;

/// The map, where the NAT keeps one.
pub open spec fn map_decl(cfg: NatConfig) -> Seq<char> {
    if cfg.mapping is EndpointIndependent {
        FULLCONE_MAP@
    } else {
        ""@
    }
}

/// What rewrites inbound packets: with hairpin all that go to the WAN address,
/// else those that arrive on the WAN interface.
pub open spec fn prerouting(cfg: NatConfig, wan_if: Seq<char>, wan_ip: Ipv4Addr) -> Seq<char> {
    if cfg.mapping is EndpointIndependent {
        if cfg.hairpin {
            "        ip daddr "@ + wan_ip.spec_text()
                + " meta l4proto udp dnat to udp dport map @fullcone"@
        } else {
            "        iif \""@ + wan_if + "\" meta l4proto udp dnat to udp dport map @fullcone"@
        }
    } else {
        ""@
    }
}

/// What rewrites outbound packets: a fixed source with the map, a random port
/// without it.
pub open spec fn postrouting(cfg: NatConfig, wan_if: Seq<char>, wan_ip: Ipv4Addr) -> Seq<char> {
    let hairpin = if cfg.hairpin {
        "        ct status dnat masquerade\n"@
    } else {
        ""@
    };
    if cfg.mapping is EndpointIndependent {
        hairpin + "        oif \""@ + wan_if
            + "\" meta l4proto udp update @fullcone { udp sport timeout 300s : ip saddr . udp sport }\n        oif \""@
            + wan_if + "\" snat to "@ + wan_ip.spec_text()
    } else {
        hairpin + "        oif \""@ + wan_if + "\" masquerade random"@
    }
}

/// The priority of the postrouting chain.
pub open spec fn priority(cfg: NatConfig) -> Seq<char> {
    if cfg.mapping is EndpointIndependent {
        "srcnat"@
    } else {
        "100"@
    }
}

/// The table that filters inbound packets, as the filtering behavior asks.
pub open spec fn filter_table(cfg: NatConfig, wan_if: Seq<char>) -> Seq<char> {
    match cfg.filtering {
        NatFiltering::EndpointIndependent => ""@,
        NatFiltering::AddressAndPortDependent => {
            "\ntable ip filter {\n    chain forward {\n        type filter hook forward priority 0; policy accept;\n        iif \""@
                + wan_if + "\" ct state established,related accept\n        iif \""@ + wan_if
                + "\" drop\n    }\n}"@
        },
        NatFiltering::AddressDependent => {
            "\ntable ip filter {\n    set contacted {\n        type ipv4_addr\n        flags dynamic,timeout\n        timeout "@
                + dec(cfg.timeouts.udp_stream as nat)
                + "s\n        size 8192\n    }\n    chain forward {\n        type filter hook forward priority 0; policy accept;\n        iif \""@
                + wan_if + "\" ct state established,related accept\n        iif \""@ + wan_if
                + "\" ip saddr @contacted accept\n        iif \""@ + wan_if
                + "\" drop\n    }\n    chain postrouting {\n        type filter hook postrouting priority 0; policy accept;\n        oif \""@
                + wan_if + "\" update @contacted { ip daddr }\n    }\n}"@
        },
    }
}

/// The NAT rules.
pub open spec fn nat_rules(cfg: NatConfig, wan_if: Seq<char>, wan_ip: Ipv4Addr) -> Seq<char> {
    "\ntable ip nat {\n"@ + map_decl(cfg)
        + "\n    chain prerouting {\n        type nat hook prerouting priority dstnat; policy accept;\n"@
        + prerouting(cfg, wan_if, wan_ip)
        + "\n    }\n    chain postrouting {\n        type nat hook postrouting priority "@ + priority(
        cfg,
    ) + "; policy accept;\n"@ + postrouting(cfg, wan_if, wan_ip) + "\n    }\n}\n"@ + filter_table(
        cfg,
        wan_if,
    ) + "\n"@
}

fn prerouting_rules(cfg: &NatConfig, wan_if: &str, wan_ip: Ipv4Addr) -> (r: String)
    ensures
        r@ == prerouting(*cfg, wan_if@, wan_ip),
{
    if uses_fullcone_map(cfg) {
        if cfg.hairpin {
            let mut s = "        ip daddr ".to_owned();
            s.append(wan_ip.text().as_str());
            s.append(" meta l4proto udp dnat to udp dport map @fullcone");
            s
        } else {
            let mut s = "        iif \"".to_owned();
            s.append(wan_if);
            s.append("\" meta l4proto udp dnat to udp dport map @fullcone");
            s
        }
    } else {
        "".to_owned()
    }
}

fn postrouting_rules(cfg: &NatConfig, wan_if: &str, wan_ip: Ipv4Addr) -> (r: String)
    ensures
        r@ == postrouting(*cfg, wan_if@, wan_ip),
{
    let mut s = if cfg.hairpin {
        "        ct status dnat masquerade\n".to_owned()
    } else {
        "".to_owned()
    };
    if uses_fullcone_map(cfg) {
        s.append("        oif \"");
        s.append(wan_if);
        s.append(
            "\" meta l4proto udp update @fullcone { udp sport timeout 300s : ip saddr . udp sport }\n        oif \"",
        );
        s.append(wan_if);
        s.append("\" snat to ");
        s.append(wan_ip.text().as_str());
    } else {
        s.append("        oif \"");
        s.append(wan_if);
        s.append("\" masquerade random");
    }
    s
}

fn filter_rules(cfg: &NatConfig, wan_if: &str) -> (r: String)
    ensures
        r@ == filter_table(*cfg, wan_if@),
{
    match cfg.filtering {
        NatFiltering::EndpointIndependent => "".to_owned(),
        NatFiltering::AddressAndPortDependent => {
            let mut s =
                "\ntable ip filter {\n    chain forward {\n        type filter hook forward priority 0; policy accept;\n        iif \"".to_owned();
            s.append(wan_if);
            s.append("\" ct state established,related accept\n        iif \"");
            s.append(wan_if);
            s.append("\" drop\n    }\n}");
            s
        },
        NatFiltering::AddressDependent => {
            let mut s =
                "\ntable ip filter {\n    set contacted {\n        type ipv4_addr\n        flags dynamic,timeout\n        timeout ".to_owned();
            push_dec(&mut s, cfg.timeouts.udp_stream as u64);
            s.append(
                "s\n        size 8192\n    }\n    chain forward {\n        type filter hook forward priority 0; policy accept;\n        iif \"",
            );
            s.append(wan_if);
            s.append("\" ct state established,related accept\n        iif \"");
            s.append(wan_if);
            s.append("\" ip saddr @contacted accept\n        iif \"");
            s.append(wan_if);
            s.append(
                "\" drop\n    }\n    chain postrouting {\n        type filter hook postrouting priority 0; policy accept;\n        oif \"",
            );
            s.append(wan_if);
            s.append("\" update @contacted { ip daddr }\n    }\n}");
            s
        },
    }
}

/// Generates nftables rules for a [`NatConfig`] that can be expressed.
pub fn generate_nat_rules(cfg: &NatConfig, wan_if: &str, wan_ip: Ipv4Addr) -> (r: String)
    requires
        !(cfg.mapping is EndpointDependent && cfg.hairpin),
    ensures
        r@ == nat_rules(*cfg, wan_if@, wan_ip),
{
    let full = uses_fullcone_map(cfg);
    let mut s = "\ntable ip nat {\n".to_owned();
    s.append(
        if full {
            FULLCONE_MAP
        } else {
            ""
        },
    );
    s.append(
        "\n    chain prerouting {\n        type nat hook prerouting priority dstnat; policy accept;\n",
    );
    s.append(prerouting_rules(cfg, wan_if, wan_ip).as_str());
    s.append("\n    }\n    chain postrouting {\n        type nat hook postrouting priority ");
    s.append(
        if full {
            "srcnat"
        } else {
            "100"
        },
    );
    s.append("; policy accept;\n");
    s.append(postrouting_rules(cfg, wan_if, wan_ip).as_str());
    s.append("\n    }\n}\n");
    s.append(filter_rules(cfg, wan_if).as_str());
    s.append("\n");
    s
}

/// The NAT rules of a configuration, or what stands in their way. The fields of
/// a configuration are public, so it is checked again here.
pub fn checked_nat_rules(cfg: &NatConfig, wan_if: &str, wan_ip: Ipv4Addr) -> (r: Result<
    String,
    NatConfigError,
>)
    ensures
        match cfg.problem() {
            Some(e) => r is Err && r->Err_0 == e,
            None => r is Ok && r->Ok_0@ == nat_rules(*cfg, wan_if@, wan_ip),
        },
{
    match cfg.validate() {
        Err(e) => Err(e),
        Ok(()) => Ok(generate_nat_rules(cfg, wan_if, wan_ip)),
    }
}

/// The kernel settings that put the timeouts in place, with their values.
pub fn conntrack_sysctls(t: &ConntrackTimeouts) -> (r: Vec<(&'static str, String)>)
    ensures
        r@.len() == 3,
        r@[0].0@ == "net/netfilter/nf_conntrack_udp_timeout"@,
        r@[0].1@ == dec(t.udp as nat),
        r@[1].0@ == "net/netfilter/nf_conntrack_udp_timeout_stream"@,
        r@[1].1@ == dec(t.udp_stream as nat),
        r@[2].0@ == "net/netfilter/nf_conntrack_tcp_timeout_established"@,
        r@[2].1@ == dec(t.tcp_established as nat),
{
    let mut out: Vec<(&'static str, String)> = Vec::new();
    out.push(("net/netfilter/nf_conntrack_udp_timeout", dec_string(t.udp as u64)));
    out.push(("net/netfilter/nf_conntrack_udp_timeout_stream", dec_string(t.udp_stream as u64)));
    out.push(
        (
            "net/netfilter/nf_conntrack_tcp_timeout_established",
            dec_string(t.tcp_established as u64),
        ),
    );
    out
}

/// The WAN prefix of a router for prefix translation: the first three groups of
/// its upstream address, then the last one, with the length of the LAN prefix.
pub open spec fn wan_prefix(upstream_ip: Ipv6Addr, lan_prefix_len: u8) -> Ipv6Net {
    Ipv6Net {
        addr: upstream_ip.subnet(upstream_ip.bits as int % 0x1_0000),
        prefix_len: if lan_prefix_len <= 128 {
            lan_prefix_len
        } else {
            64
        },
    }
}

/// The unique WAN prefix that a router maps its LAN prefix to, derived from its
/// upstream address: `2001:db8::11` gives `2001:db8:0:11::`.
pub fn nptv6_wan_prefix(upstream_ip: Ipv6Addr, lan_prefix_len: u8) -> (r: Ipv6Net)
    ensures
        r == wan_prefix(upstream_ip, lan_prefix_len),
        r.wf(),
{
    let host: u16 = (upstream_ip.bits % 0x1_0000) as u16;
    let addr = upstream_ip.with_subnet(host);
    Ipv6Net {
        addr,
        prefix_len: if lan_prefix_len <= 128 {
            lan_prefix_len
        } else {
            64
        },
    }
}

/// Routers with different numbers on one exchange map to different prefixes,
/// and none maps to the prefix of the exchange itself.
pub proof fn wan_prefixes_differ(a: Ipv6Addr, b: Ipv6Addr, len: u8)
    requires
        a.bits as int / 0x1_0000 == b.bits as int / 0x1_0000,
        a != b,
    ensures
        wan_prefix(a, len).addr != wan_prefix(b, len).addr,
        a.bits as int % 0x1_0000 != 0 ==> wan_prefix(a, len).addr != a.subnet(0),
{
    let hi = a.bits as int / 0x1_0000_0000_0000_0000_0000;
    assert(b.bits as int / 0x1_0000_0000_0000_0000_0000 == hi);
    let x = a.bits as int % 0x1_0000;
    let y = b.bits as int % 0x1_0000;
    assert(x != y);
}

/// The IPv6 NAT rules, where the mode has any.
pub open spec fn nat_v6_rules(
    mode: NatV6Mode,
    wan_if: Seq<char>,
    lan_prefix: Ipv6Net,
    wan_prefix: Ipv6Net,
) -> Option<Seq<char>> {
    match mode {
        NatV6Mode::Off => None,
        NatV6Mode::Nat64 => None,
        NatV6Mode::Nptv6 => Some(
            "\ntable ip6 nat {\n    chain postrouting {\n        type nat hook postrouting priority 100; policy accept;\n        oif \""@
                + wan_if + "\" ip6 saddr "@ + lan_prefix.spec_text() + " snat prefix to "@
                + wan_prefix.spec_text()
                + "\n    }\n    chain prerouting {\n        type nat hook prerouting priority -100; policy accept;\n        iif \""@
                + wan_if + "\" ip6 daddr "@ + wan_prefix.spec_text() + " dnat prefix to "@
                + lan_prefix.spec_text() + "\n    }\n}\n"@,
        ),
        NatV6Mode::Masquerade => Some(
            "\ntable ip6 nat {\n    chain postrouting {\n        type nat hook postrouting priority 100; policy accept;\n        oif \""@
                + wan_if
                + "\" masquerade\n    }\n    chain forward {\n        type filter hook forward priority 0; policy accept;\n        meta l4proto ipv6-icmp accept\n    }\n}\n"@,
        ),
    }
}

/// Generates the IPv6 NAT rules, where the mode has any.
pub fn generate_nat_v6_rules(
    mode: NatV6Mode,
    wan_if: &str,
    lan_prefix: Ipv6Net,
    wan_prefix: Ipv6Net,
) -> (r: Option<String>)
    ensures
        r is Some == nat_v6_rules(mode, wan_if@, lan_prefix, wan_prefix) is Some,
        r is Some ==> Some(r->0@) == nat_v6_rules(mode, wan_if@, lan_prefix, wan_prefix),
{
    match mode {
        NatV6Mode::Off => None,
        NatV6Mode::Nat64 => None,
        NatV6Mode::Nptv6 => {
            let mut s =
                "\ntable ip6 nat {\n    chain postrouting {\n        type nat hook postrouting priority 100; policy accept;\n        oif \"".to_owned();
            s.append(wan_if);
            s.append("\" ip6 saddr ");
            s.append(lan_prefix.text().as_str());
            s.append(" snat prefix to ");
            s.append(wan_prefix.text().as_str());
            s.append(
                "\n    }\n    chain prerouting {\n        type nat hook prerouting priority -100; policy accept;\n        iif \"",
            );
            s.append(wan_if);
            s.append("\" ip6 daddr ");
            s.append(wan_prefix.text().as_str());
            s.append(" dnat prefix to ");
            s.append(lan_prefix.text().as_str());
            s.append("\n    }\n}\n");
            Some(s)
        },
        NatV6Mode::Masquerade => {
            let mut s =
                "\ntable ip6 nat {\n    chain postrouting {\n        type nat hook postrouting priority 100; policy accept;\n        oif \"".to_owned();
            s.append(wan_if);
            s.append(
                "\" masquerade\n    }\n    chain forward {\n        type filter hook forward priority 0; policy accept;\n        meta l4proto ipv6-icmp accept\n    }\n}\n",
            );
            Some(s)
        },
    }
}

/// The numbers in decimal.
pub open spec fn dec_all(ports: Seq<u16>) -> Seq<Seq<char>> {
    Seq::new(ports.len(), |i: int| dec(ports[i] as nat))
}

/// The rules of an outbound policy for one protocol. An empty list of allowed
/// ports allows none.
pub open spec fn policy_rules(policy: PolicyView, proto: Seq<char>) -> Seq<char> {
    let drop = "        meta l4proto "@ + proto + " drop\n"@;
    match policy {
        PolicyView::AllowAll => ""@,
        PolicyView::Allow(ports) => if ports.len() > 0 {
            "        "@ + proto + " dport { "@ + join(dec_all(ports), ", "@) + " } accept\n"@ + drop
        } else {
            drop
        },
        PolicyView::BlockAll => drop,
    }
}

/// The firewall table.
pub open spec fn firewall_rules(cfg: FirewallView, wan_if: Seq<char>) -> Seq<char> {
    let inbound = if cfg.block_inbound {
        "        iif \""@ + wan_if + "\" drop\n"@
    } else {
        ""@
    };
    "table inet fw {\n    chain forward {\n        type filter hook forward priority 10; policy accept;\n        ct state established,related accept\n"@
        + inbound + policy_rules(cfg.outbound_tcp, "tcp"@) + policy_rules(
        cfg.outbound_udp,
        "udp"@,
    ) + "    }\n}\n"@
}

fn drop_rule(proto: &str) -> (r: String)
    ensures
        r@ == "        meta l4proto "@ + proto@ + " drop\n"@,
{
    let mut s = "        meta l4proto ".to_owned();
    s.append(proto);
    s.append(" drop\n");
    s
}

fn policy_text(policy: &PortPolicy, proto: &str) -> (r: String)
    ensures
        r@ == policy_rules(policy@, proto@),
{
    match policy {
        PortPolicy::AllowAll => "".to_owned(),
        PortPolicy::Allow(ports) => if ports.len() > 0 {
            let mut texts: Vec<String> = Vec::new();
            let mut i: usize = 0;
            while i < ports.len()
                invariant
                    i <= ports.len(),
                    texts.len() == i,
                    forall|j: int| 0 <= j < i ==> texts@[j]@ == dec(ports@[j] as nat),
                decreases ports.len() - i,
            {
                texts.push(dec_string(ports[i] as u64));
                i += 1;
            }
            assert(views(texts@) =~= dec_all(ports@));
            let mut s = "        ".to_owned();
            s.append(proto);
            s.append(" dport { ");
            s.append(join_strings(&texts, ", ").as_str());
            s.append(" } accept\n");
            s.append(drop_rule(proto).as_str());
            s
        } else {
            drop_rule(proto)
        },
        PortPolicy::BlockAll => drop_rule(proto),
    }
}

/// Generates nftables rules from a [`FirewallConfig`], in a table of their own
/// at priority 10, behind the NAT filter.
pub fn generate_firewall_rules(cfg: &FirewallConfig, wan_if: &str) -> (r: String)
    ensures
        r@ == firewall_rules(cfg@, wan_if@),
{
    let mut rules =
        "table inet fw {\n    chain forward {\n        type filter hook forward priority 10; policy accept;\n        ct state established,related accept\n".to_owned();
    let mut inbound = "".to_owned();
    if cfg.block_inbound {
        inbound = "        iif \"".to_owned();
        inbound.append(wan_if);
        inbound.append("\" drop\n");
    }
    rules.append(inbound.as_str());
    rules.append(policy_text(&cfg.outbound_tcp, "tcp").as_str());
    rules.append(policy_text(&cfg.outbound_udp, "udp").as_str());
    rules.append("    }\n}\n");
    rules
}

/// The rules of a firewall preset, where it has any.
pub fn firewall_script(firewall: &Firewall, wan_if: &str) -> (r: Option<String>)
    ensures
        r is Some == firewall.spec_config() is Some,
        r is Some ==> r->0@ == firewall_rules(firewall.spec_config()->0, wan_if@),
{
    match firewall.to_config() {
        None => None,
        Some(cfg) => Some(generate_firewall_rules(&cfg, wan_if)),
    }
}

/// The scripts that remove the firewall; either may fail where its table is not
/// there.
pub fn firewall_removal_scripts() -> (r: (&'static str, &'static str))
    ensures
        r.0@ == "delete table inet fw\n"@,
        r.1@ == "delete table ip fw\n"@,
{
    ("delete table inet fw\n", "delete table ip fw\n")
}

/// The rules that keep back "fragmentation needed" messages.
pub const ICMP_FRAG_BLOCK: &'static str = r#"
table ip filter {
    chain forward {
        type filter hook forward priority 0; policy accept;
        icmp type destination-unreachable icmp code frag-needed drop
    }
}
"#;

} // verus!
