//! Which requests reach the registry, and what their texts ask for.
use vstd::prelude::*;

use crate::addr::Ipv4Addr;
use crate::bytes::big_endian;
use crate::notation::{decimals_read_back, dotted_addresses_read_back, letters_change_size};
use crate::portmap::exchanges::{
    pmp_address_replies_are_written, pmp_map_replies_are_written, pmp_requests_are_read,
};
use crate::portmap::nat_pmp;
use crate::portmap::pcp;
use crate::portmap::registry::{MapProto, RegistryView};
use crate::portmap::server::{epoch, ServerContext};
use crate::portmap::upnp::{
    action_name, body_client, body_lease, body_port, body_proto, header_action, header_value,
    root_description, tag_text, DEVICE_TYPE, DEVICE_UUID,
};
use crate::text::{
    dec, find_from, find_from_is_first, occurs_at, split, split_from, trim, trim_end_char,
    trim_start_char, upper,
};

verus! {

// ── NAT-PMP and PCP ──────────────────────────────────────────────────

/// NAT-PMP leaves packets that hold no request alone.
pub proof fn pmp_ignores_the_rest(
    ctx: ServerContext,
    reg: RegistryView,
    client: Ipv4Addr,
    s: Seq<u8>,
    now: u64,
)
    requires
        s.len() < 2 || s[0] != 0 || s[1] > 2 || (s[1] != 0 && s.len() < 12),
    ensures
        nat_pmp::step(ctx, reg, client, s, now).0 == reg,
        nat_pmp::step(ctx, reg, client, s, now).1 is None,
{
    pmp_requests_are_read(s);
}

/// NAT-PMP refuses clients from elsewhere than the downstream network with "not
/// authorized", grants them nothing, does not tell them the address, and changes nothing.
#[verifier::rlimit(40)]
pub proof fn pmp_refuses_strangers(
    ctx: ServerContext,
    reg: RegistryView,
    client: Ipv4Addr,
    s: Seq<u8>,
    now: u64,
)
    requires
        !ctx.downstream_cidr.holds(client),
        s.len() >= 12,
        s[0] == 0,
        s[1] <= 2,
    ensures
        ({
            let (after, r) = nat_pmp::step(ctx, reg, client, s, now);
            let b = r->0->Reply_0;
            &&& after == reg
            &&& r is Some && r->0 is Reply
            &&& b[1] == 128 + s[1]
            &&& big_endian(b, 2, 4) == 2
            &&& big_endian(b, 4, 8) == epoch(now)
            &&& big_endian(b, 8, 12) == 0
            &&& s[1] == 0 ==> b.len() == 12
            &&& s[1] != 0 ==> b.len() == 16 && big_endian(b, 12, 16) == 0
        }),
{
    let refused = nat_pmp::ResultCode::NotAuthorizedOrRefused;
    pmp_requests_are_read(s);
    pmp_address_replies_are_written(refused, epoch(now), Ipv4Addr { bits: 0 });
    pmp_map_replies_are_written(MapProto::Udp, refused, epoch(now), 0, 0, 0);
    pmp_map_replies_are_written(MapProto::Tcp, refused, epoch(now), 0, 0, 0);
    let (after, r) = nat_pmp::step(ctx, reg, client, s, now);
    let b = r->0->Reply_0;
    if s[1] != 0 {
        assert(big_endian(b, 8, 12) == 0) by {
            assert(big_endian(b, 8, 10) == 0 && big_endian(b, 10, 12) == 0);
            reveal_with_fuel(big_endian, 5);
        }
    }
}

/// What a client on the downstream network asks NAT-PMP for is what is in its packet.
pub proof fn pmp_hands_requests_on(
    ctx: ServerContext,
    reg: RegistryView,
    client: Ipv4Addr,
    s: Seq<u8>,
    now: u64,
)
    requires
        ctx.downstream_cidr.holds(client),
        s.len() >= 12,
        s[0] == 0,
        s[1] == 1 || s[1] == 2,
    ensures
        ({
            let (after, r) = nat_pmp::step(ctx, reg, client, s, now);
            let proto = if s[1] == 1 {
                MapProto::Udp
            } else {
                MapProto::Tcp
            };
            r is Some && (after, r->0) == nat_pmp::map_step(
                ctx,
                reg,
                client,
                proto,
                big_endian(s, 4, 6) as u16,
                big_endian(s, 6, 8) as u16,
                big_endian(s, 8, 12) as u32,
                now,
            )
        }),
{
    pmp_requests_are_read(s);
}

/// What a client on the downstream network asks PCP for under its own address is handed
/// on as it is.
pub proof fn pcp_hands_requests_on(
    ctx: ServerContext,
    reg: RegistryView,
    client: Ipv4Addr,
    d: pcp::Decoded,
    lifetime: u32,
    data: pcp::MapData,
    now: u64,
)
    requires
        ctx.downstream_cidr.holds(client),
        d.client_addr.bits == 0xffff_0000_0000 + client.bits,
        d.request == (pcp::Request::MapPort { lifetime_seconds: lifetime, data }),
    ensures
        pcp::request_step(ctx, reg, client, d, now) == pcp::map_step(
            ctx,
            reg,
            client,
            lifetime,
            data,
            now,
        ),
{
}

// ── UPnP ─────────────────────────────────────────────────────────────

/// Whether a text is three letters, each in either size.
pub open spec fn is_word(t: Seq<char>, a: char, b: char, c: char) -> bool {
    t.len() == 3 && either_size(t[0], a) && either_size(t[1], b) && either_size(t[2], c)
}

/// Whether a character is a small letter or its capital, 32 places before it.
pub open spec fn either_size(x: char, small: char) -> bool {
    x == small || x as int + 32 == small as int
}

/// The protocol of a request is UDP or TCP in letters of any size, with white space at its
/// ends or without; anything else is none.
pub proof fn protocols_are_read(body: Seq<char>, t: Seq<char>)
    requires
        tag_text(body, "NewProtocol"@) == Some(t),
    ensures
        body_proto(body) == Some(MapProto::Udp) <==> is_word(trim(t), 'u', 'd', 'p'),
        body_proto(body) == Some(MapProto::Tcp) <==> is_word(trim(t), 't', 'c', 'p'),
{
    reveal_strlit("UDP");
    reveal_strlit("TCP");
    let w = trim(t);
    let u = upper(w);
    assert(u.len() == w.len());
    if w.len() == 3 {
        letters_change_size(w, 0);
        letters_change_size(w, 1);
        letters_change_size(w, 2);
        assert(u[0] == 'U' <==> either_size(w[0], 'u'));
        assert(u[0] == 'T' <==> either_size(w[0], 't'));
        assert(u[1] == 'D' <==> either_size(w[1], 'd'));
        assert(u[1] == 'C' <==> either_size(w[1], 'c'));
        assert(u[2] == 'P' <==> either_size(w[2], 'p'));
        assert(u == "UDP"@ <==> u[0] == 'U' && u[1] == 'D' && u[2] == 'P') by {
            if u[0] == 'U' && u[1] == 'D' && u[2] == 'P' {
                assert(u =~= "UDP"@);
            }
        }
        assert(u == "TCP"@ <==> u[0] == 'T' && u[1] == 'C' && u[2] == 'P') by {
            if u[0] == 'T' && u[1] == 'C' && u[2] == 'P' {
                assert(u =~= "TCP"@);
            }
        }
    }
}

/// Ports, clients and leases of a request are read from their elements: a port is a number
/// up to 65535, a client an address in dotted decimal, and a lease a number of 32 bits; a
/// lease that is missing or is none counts as 0.
pub proof fn numbers_of_requests_are_read(
    body: Seq<char>,
    tag: Seq<char>,
    n: nat,
    a: u8,
    b: u8,
    c: u8,
    d: u8,
)
    ensures
        tag_text(body, tag) == Some(dec(n)) && n <= 65535 ==> body_port(body, tag) == Some(
            n as int,
        ),
        tag_text(body, tag) == Some(dec(n)) && n > 65535 ==> body_port(body, tag) is None,
        tag_text(body, tag) is None ==> body_port(body, tag) is None,
        tag_text(body, "NewInternalClient"@) == Some(
            dec(a as nat) + "."@ + dec(b as nat) + "."@ + dec(c as nat) + "."@ + dec(d as nat),
        ) ==> body_client(body) == Some(Ipv4Addr::of(a as int, b as int, c as int, d as int)),
        tag_text(body, "NewInternalClient"@) is None ==> body_client(body) is None,
        tag_text(body, "NewLeaseDuration"@) == Some(dec(n)) && n <= 0xffff_ffff ==> body_lease(body)
            == n,
        tag_text(body, "NewLeaseDuration"@) == Some(dec(n)) && n > 0xffff_ffff ==> body_lease(body)
            == 0,
        tag_text(body, "NewLeaseDuration"@) is None ==> body_lease(body) == 0,
        tag_text(body, "NewProtocol"@) is None ==> body_proto(body) is None,
{
    decimals_read_back(n, 0xffff);
    decimals_read_back(n, 0xffff_ffff);
    dotted_addresses_read_back(a, b, c, d);
}

/// The name of an action stands behind the last `#`, where there is one.
pub proof fn actions_are_named_last(service: Seq<char>, name: Seq<char>)
    requires
        forall|i: int| 0 <= i < name.len() ==> #[trigger] name[i] != '#',
    ensures
        action_name(service + "#"@ + name) == name,
        action_name(name) == name,
{
    reveal_strlit("#");
    last_piece(service, name, 0);
    find_from_is_first(name, "#"@, 0);
    if let Some(k) = find_from(name, "#"@, 0) {
        assert(name.subrange(k, k + 1)[0] == name[k]);
    }
    assert(name.skip(0) =~= name);
    assert(split(name, "#"@) =~= seq![name]);
    assert(seq![name].last() == name);
}

#[verifier::rlimit(40)]
proof fn last_piece(service: Seq<char>, name: Seq<char>, from: int)
    requires
        forall|i: int| 0 <= i < name.len() ==> #[trigger] name[i] != '#',
        0 <= from <= service.len(),
    ensures
        split_from(service + "#"@ + name, "#"@, from).len() > 0,
        split_from(service + "#"@ + name, "#"@, from).last() == name,
    decreases service.len() - from,
{
    reveal_strlit("#");
    let mark = "#"@;
    let s = service + mark + name;
    let n = service.len() as int;
    find_from_is_first(s, mark, from);
    assert(s.subrange(n, n + 1) =~= mark);
    assert(occurs_at(s, mark, n));
    let k = find_from(s, mark, from)->0;
    assert(k <= n);
    if k < n {
        last_piece(service, name, k + 1);
    } else {
        find_from_is_first(s, mark, n + 1);
        if let Some(j) = find_from(s, mark, n + 1) {
            assert(s.subrange(j, j + 1)[0] == s[j]);
            assert(s[j] == name[j - n - 1]);
        }
        assert(s.skip(n + 1) =~= name);
        assert(split_from(s, mark, n + 1) =~= seq![name]);
    }
    let rest = split_from(s, mark, k + 1);
    assert((seq![s.subrange(from, k)] + rest).last() == rest.last());
}

/// The action of a request is what its header says between quotation marks; the marks may
/// be missing. A request without that header has none.
pub proof fn actions_are_quoted(headers: Seq<(Seq<char>, Seq<char>)>, a: Seq<char>)
    requires
        a.len() > 0,
        a[0] != '"',
        a.last() != '"',
    ensures
        header_value(headers, "soapaction"@) == Some(seq!['"'] + a + seq!['"']) ==> header_action(
            headers,
        ) == a,
        header_value(headers, "soapaction"@) == Some(a) ==> header_action(headers) == a,
        header_value(headers, "soapaction"@) is None ==> header_action(headers).len() == 0,
{
    let q = seq!['"'] + a + seq!['"'];
    assert(q.drop_first() =~= a + seq!['"']);
    let t = a + seq!['"'];
    assert(t[0] == a[0]);
    assert(trim_start_char(q, '"') == trim_start_char(t, '"'));
    assert(trim_start_char(t, '"') == t);
    assert(t.drop_last() =~= a);
    assert(trim_end_char(t, '"') == trim_end_char(a, '"'));
}

/// Whether a text begins with another.
pub open spec fn begins(s: Seq<char>, t: Seq<char>) -> bool {
    t.len() <= s.len() && s.subrange(0, t.len() as int) == t
}

/// Whether a text ends in another.
pub open spec fn ends(s: Seq<char>, t: Seq<char>) -> bool {
    t.len() <= s.len() && s.subrange(s.len() - t.len(), s.len() as int) == t
}

/// The device description says of which type the service is, and where it is controlled
/// and described, each in its element.
#[verifier::rlimit(40)]
pub proof fn descriptions_lead_to_the_service(wan_ip: Ipv4Addr) -> (r: (
    Seq<char>,
    Seq<char>,
    Seq<char>,
    Seq<char>,
))
    ensures
        root_description(wan_ip) == r.0 + "urn:schemas-upnp-org:service:WANIPConnection:1"@ + r.1
            + "/ctl/IPConn"@ + r.2 + "/WANIPCn.xml"@ + r.3,
        ends(r.0, "<serviceType>"@),
        begins(r.1, "</serviceType>"@),
        ends(r.1, "<controlURL>"@),
        begins(r.2, "</controlURL>"@),
        ends(r.2, "<SCPDURL>"@),
        begins(r.3, "</SCPDURL>"@),
{
    let last = r#"</UDN>
            <serviceList>
              <service>
                <serviceType>"#@;
    let front = r#"<?xml version="1.0"?>
<root xmlns="urn:schemas-upnp-org:device-1-0">
  <specVersion><major>1</major><minor>0</minor></specVersion>
  <device>
    <deviceType>"#@ + DEVICE_TYPE@ + r#"</deviceType>
    <friendlyName>patchbay IGD</friendlyName>
    <manufacturer>patchbay</manufacturer>
    <modelName>patchbay-igd</modelName>
    <UDN>"#@ + DEVICE_UUID@ + r#"</UDN>
    <deviceList>
      <device>
        <deviceType>urn:schemas-upnp-org:device:WANDevice:1</deviceType>
        <friendlyName>WAN</friendlyName>
        <UDN>"#@ + DEVICE_UUID@ + r#"</UDN>
        <deviceList>
          <device>
            <deviceType>urn:schemas-upnp-org:device:WANConnectionDevice:1</deviceType>
            <friendlyName>WAN Connection</friendlyName>
            <UDN>"#@ + DEVICE_UUID@;
    let b = r#"</serviceType>
                <serviceId>urn:upnp-org:serviceId:WANIPConn1</serviceId>
                <controlURL>"#@;
    let c = r#"</controlURL>
                <eventSubURL>/evt/IPConn</eventSubURL>
                <SCPDURL>"#@;
    let first = r#"</SCPDURL>
              </service>
            </serviceList>
          </device>
        </deviceList>
      </device>
    </deviceList>
    <presentationURL>http://"#@;
    let d = first + wan_ip.spec_text() + r#"/</presentationURL>
  </device>
</root>"#@;
    reveal_strlit(r#"</UDN>
            <serviceList>
              <service>
                <serviceType>"#);
    reveal_strlit(r#"</serviceType>
                <serviceId>urn:upnp-org:serviceId:WANIPConn1</serviceId>
                <controlURL>"#);
    reveal_strlit(r#"</controlURL>
                <eventSubURL>/evt/IPConn</eventSubURL>
                <SCPDURL>"#);
    reveal_strlit(r#"</SCPDURL>
              </service>
            </serviceList>
          </device>
        </deviceList>
      </device>
    </deviceList>
    <presentationURL>http://"#);
    reveal_strlit("<serviceType>");
    reveal_strlit("</serviceType>");
    reveal_strlit("<controlURL>");
    reveal_strlit("</controlURL>");
    reveal_strlit("<SCPDURL>");
    reveal_strlit("</SCPDURL>");
    let a = front + last;
    assert(a.subrange(a.len() - 13, a.len() as int) =~= "<serviceType>"@);
    assert(b.subrange(0, 14) =~= "</serviceType>"@);
    assert(b.subrange(b.len() - 12, b.len() as int) =~= "<controlURL>"@);
    assert(c.subrange(0, 13) =~= "</controlURL>"@);
    assert(c.subrange(c.len() - 9, c.len() as int) =~= "<SCPDURL>"@);
    assert(d.subrange(0, 10) =~= "</SCPDURL>"@);
    assert(root_description(wan_ip) =~= a + "urn:schemas-upnp-org:service:WANIPConnection:1"@ + b
        + "/ctl/IPConn"@ + c + "/WANIPCn.xml"@ + d);
    (a, b, c, d)
}

} // verus!
