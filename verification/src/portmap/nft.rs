//! The `ip portmap` table: one DNAT rule and one forward rule per mapping.
use vstd::prelude::*;

use crate::addr::Ipv4Addr;
use crate::portmap::registry::{MapProto, Mapping};
use crate::text::{dec, push_dec};

verus! {

/// The protocol's name in a rule.
pub open spec fn proto_name(p: MapProto) -> Seq<char> {
    match p {
        MapProto::Udp => "udp"@,
        MapProto::Tcp => "tcp"@,
    }
}

fn proto_str(p: MapProto) -> (r: &'static str)
    ensures
        r@ == proto_name(p),
{
    match p {
        MapProto::Udp => "udp",
        MapProto::Tcp => "tcp",
    }
}

/// The rule that rewrites the destination of what arrives on a mapped port.
pub open spec fn dnat_rule(wan_ip: Ipv4Addr, m: Mapping) -> Seq<char> {
    "        ip daddr "@ + wan_ip.spec_text() + " "@ + proto_name(m.proto) + " dport "@ + dec(
        m.external_port as nat,
    ) + " dnat to "@ + m.internal_ip.spec_text() + ":"@ + dec(m.internal_port as nat) + "\n"@
}

/// The rule that lets rewritten packets through to the client.
pub open spec fn accept_rule(m: Mapping) -> Seq<char> {
    "        ip daddr "@ + m.internal_ip.spec_text() + " "@ + proto_name(m.proto) + " dport "@ + dec(
        m.internal_port as nat,
    ) + " ct status dnat accept\n"@
}

/// The DNAT rules of all mappings, in order.
pub open spec fn dnat_rules(wan_ip: Ipv4Addr, ms: Seq<Mapping>) -> Seq<char>
    decreases ms.len(),
{
    if ms.len() == 0 {
        Seq::empty()
    } else {
        dnat_rules(wan_ip, ms.drop_last()) + dnat_rule(wan_ip, ms.last())
    }
}

/// The forward rules of all mappings, in order.
pub open spec fn accept_rules(ms: Seq<Mapping>) -> Seq<char>
    decreases ms.len(),
{
    if ms.len() == 0 {
        Seq::empty()
    } else {
        accept_rules(ms.drop_last()) + accept_rule(ms.last())
    }
}

/// The whole table.
pub open spec fn portmap_rules(wan_ip: Ipv4Addr, ms: Seq<Mapping>) -> Seq<char> {
    "table ip portmap {\n"@ + "    chain prerouting {\n"@
        + "        type nat hook prerouting priority -110; policy accept;\n"@ + dnat_rules(
        wan_ip,
        ms,
    ) + "    }\n"@ + "    chain forward {\n"@
        + "        type filter hook forward priority -10; policy accept;\n"@ + accept_rules(ms)
        + "    }\n"@ + "}\n"@
}

fn dnat_line(wan_ip: Ipv4Addr, m: Mapping) -> (r: String)
    ensures
        r@ == dnat_rule(wan_ip, m),
{
    let mut s = "        ip daddr ".to_owned();
    s.append(wan_ip.text().as_str());
    s.append(" ");
    s.append(proto_str(m.proto));
    s.append(" dport ");
    push_dec(&mut s, m.external_port as u64);
    s.append(" dnat to ");
    s.append(m.internal_ip.text().as_str());
    s.append(":");
    push_dec(&mut s, m.internal_port as u64);
    s.append("\n");
    s
}

fn accept_line(m: Mapping) -> (r: String)
    ensures
        r@ == accept_rule(m),
{
    let mut s = "        ip daddr ".to_owned();
    s.append(m.internal_ip.text().as_str());
    s.append(" ");
    s.append(proto_str(m.proto));
    s.append(" dport ");
    push_dec(&mut s, m.internal_port as u64);
    s.append(" ct status dnat accept\n");
    s
}

/// Generates the full `ip portmap` table for the given mappings.
///
/// The prerouting chain at priority -110 rewrites what arrives at a mapped
/// port of the WAN address. The forward chain at priority -10 accepts what was
/// rewritten, ahead of the filter that would drop new inbound flows.
pub fn generate_portmap_rules(wan_ip: Ipv4Addr, mappings: &[Mapping]) -> (r: String)
    ensures
        r@ == portmap_rules(wan_ip, mappings@),
{
    let mut rules = "table ip portmap {\n".to_owned();
    rules.append("    chain prerouting {\n");
    rules.append("        type nat hook prerouting priority -110; policy accept;\n");
    let ghost head = rules@;
    let mut i: usize = 0;
    assert(rules@ =~= head + dnat_rules(wan_ip, mappings@.take(0)));
    while i < mappings.len()
        invariant
            i <= mappings.len(),
            rules@ == head + dnat_rules(wan_ip, mappings@.take(i as int)),
        decreases mappings.len() - i,
    {
        rules.append(dnat_line(wan_ip, mappings[i]).as_str());
        assert(mappings@.take(i as int + 1).drop_last() =~= mappings@.take(i as int));
        assert(rules@ =~= head + dnat_rules(wan_ip, mappings@.take(i as int + 1)));
        i += 1;
    }
    assert(mappings@.take(mappings@.len() as int) =~= mappings@);
    rules.append("    }\n");
    rules.append("    chain forward {\n");
    rules.append("        type filter hook forward priority -10; policy accept;\n");
    let ghost head2 = rules@;
    let mut k: usize = 0;
    assert(rules@ =~= head2 + accept_rules(mappings@.take(0)));
    while k < mappings.len()
        invariant
            k <= mappings.len(),
            rules@ == head2 + accept_rules(mappings@.take(k as int)),
        decreases mappings.len() - k,
    {
        rules.append(accept_line(mappings[k]).as_str());
        assert(mappings@.take(k as int + 1).drop_last() =~= mappings@.take(k as int));
        assert(rules@ =~= head2 + accept_rules(mappings@.take(k as int + 1)));
        k += 1;
    }
    rules.append("    }\n");
    rules.append("}\n");
    rules
}

/// The script that flushes and repopulates the table in one go.
pub fn portmap_script(wan_ip: Ipv4Addr, mappings: &[Mapping]) -> (r: String)
    ensures
        r@ == "add table ip portmap\nflush table ip portmap\n"@ + portmap_rules(
            wan_ip,
            mappings@,
        ),
{
    let mut script = "add table ip portmap\nflush table ip portmap\n".to_owned();
    script.append(generate_portmap_rules(wan_ip, mappings).as_str());
    script
}

/// The script that removes the table, also where there is none.
pub fn clear_script() -> (r: &'static str)
    ensures
        r@ == "add table ip portmap\ndelete table ip portmap\n"@,
{
    "add table ip portmap\ndelete table ip portmap\n"
}

} // verus!
