//! What a UPnP client gets for its requests: which mapping an action leaves
//! behind, which fault it is told, and where it finds the description.
use vstd::prelude::*;

use crate::addr::Ipv4Addr;
use crate::portmap::laws::{
    granted, granted_mapping_lives_for_its_lifetime, lookups_find_nothing_else,
    removing_takes_one_mapping,
};
use crate::portmap::registry::{holding_is_exact, Mapping, RegistryView};
use crate::portmap::server::ServerContext;
use crate::portmap::upnp::{
    action_name, add_step, announced_length, args_text, body_client, body_lease, body_port,
    body_proto, delete_step, fault_text, header_action, header_value, headers_of, lines_target,
    route_step, soap_step, ssdp_answer, status_response, success_text, target_matches, xml_response,
    StepView,
};
use crate::text::{dec, lower, parse_number, split_once, starts_with, trim};
use vstd::utf8::{decode_utf8, encode_utf8, valid_utf8};

verus! {

/// A request for a mapping that cannot be carried out, and what the client is told:
/// arguments that are missing or make no sense are fault 402, another host's address
/// or one outside the downstream network is fault 606. Nothing changes.
pub proof fn bad_requests_are_told_so(
    ctx: ServerContext,
    reg: RegistryView,
    body: Seq<char>,
    peer: Ipv4Addr,
    pick_any: bool,
    now: u64,
)
    ensures
        ({
            let (after, r) = add_step(ctx, reg, body, peer, pick_any, now);
            let readable = body_port(body, "NewExternalPort"@) is Some && body_port(
                body,
                "NewInternalPort"@,
            ) is Some && body_client(body) is Some && body_proto(body) is Some;
            let own = body_client(body) == Some(peer) && ctx.downstream_cidr.holds(peer);
            &&& !readable ==> after == reg && r == StepView::Reply(
                xml_response(fault_text(402, "Invalid Args"@)),
            )
            &&& readable && !own ==> after == reg && r == StepView::Reply(
                xml_response(fault_text(606, "Action not authorized"@)),
            )
            &&& readable && own && body_port(body, "NewInternalPort"@) == Some(0int) ==> after
                == reg && r == StepView::Reply(xml_response(fault_text(402, "Invalid Args"@)))
        }),
{
}

/// A request for a mapping that is granted leaves a mapping of the caller's socket:
/// it lives for the lease asked for, up to the longest lifetime, which a lease of 0
/// stands for. `AddAnyPortMapping` tells the port; `AddPortMapping` grants the port
/// that is asked for to a socket that has none yet, and where that is taken the
/// client is told of the conflict. Where no port is left it is told that. A request
/// that is not granted changes nothing.
pub proof fn granted_requests_leave_a_mapping(
    ctx: ServerContext,
    reg: RegistryView,
    body: Seq<char>,
    peer: Ipv4Addr,
    pick_any: bool,
    now: u64,
) -> (m: Mapping)
    requires
        reg.wf(),
        ctx.wf(now),
        body_client(body) == Some(peer),
        ctx.downstream_cidr.holds(peer),
        body_proto(body) is Some,
        body_port(body, "NewExternalPort"@) is Some,
        body_port(body, "NewInternalPort"@) is Some,
        0 < body_port(body, "NewInternalPort"@)->0 <= 65535,
        0 <= body_port(body, "NewExternalPort"@)->0 <= 65535,
        0 <= body_lease(body) <= 0xffff_ffff,
    ensures
        ({
            let (after, r) = add_step(ctx, reg, body, peer, pick_any, now);
            let port = body_port(body, "NewInternalPort"@)->0;
            let wish = body_port(body, "NewExternalPort"@)->0;
            let lease = body_lease(body);
            let seconds = if lease == 0 || lease > ctx.max_lifetime_secs {
                ctx.max_lifetime_secs as int
            } else {
                lease
            };
            &&& r is Apply ==> {
                &&& after.entries.contains(m)
                &&& m.proto == body_proto(body)->0 && m.internal_ip == peer && m.internal_port
                    == port
                &&& m.deadline == now + seconds * 1000
                &&& !pick_any && wish != 0 && (forall|x: Mapping| #[trigger]
                    reg.entries.contains(x) ==> !(x.proto == m.proto && x.internal_ip == peer
                        && x.internal_port == port)) ==> m.external_port == wish
                &&& pick_any ==> r->Apply_0 == xml_response(
                    success_text(
                        "AddAnyPortMapping"@,
                        seq![("NewReservedPort"@, dec(m.external_port as nat))],
                    ),
                )
                &&& !pick_any ==> r->Apply_0 == xml_response(
                    success_text("AddPortMapping"@, Seq::empty()),
                )
                &&& r->Apply_1 == xml_response(fault_text(500, "Action failed"@))
            }
            &&& r is Reply ==> after == reg
            &&& r is Reply && !pick_any && wish != 0 ==> r->Reply_0 == xml_response(
                fault_text(718, "Conflict in mapping entry"@),
            )
            &&& r is Reply && (pick_any || wish == 0) ==> r->Reply_0 == xml_response(
                fault_text(728, "No ports available"@),
            )
        }),
{
    let (after, r) = add_step(ctx, reg, body, peer, pick_any, now);
    let port = body_port(body, "NewInternalPort"@)->0 as u16;
    let wish = body_port(body, "NewExternalPort"@)->0;
    let lease = body_lease(body);
    let seconds: u64 = if lease == 0 {
        ctx.max_lifetime_secs
    } else {
        ctx.grant(lease as u64)
    };
    let w = if pick_any || wish == 0 {
        None
    } else {
        Some(wish as u16)
    };
    let proto = body_proto(body)->0;
    let lifetime = (seconds * 1000) as u64;
    assert(lifetime == seconds * 1000);
    let out = reg.allocate(proto, peer, port, w, (now + seconds * 1000) as u64, None).1;
    if granted(out) is Some {
        granted_mapping_lives_for_its_lifetime(
            reg,
            proto,
            peer,
            port,
            w,
            now,
            lifetime,
            None,
            now,
        );
        let m = granted(out)->0;
        if out is Renewed {
            lookups_find_nothing_else(reg, proto, peer, port);
            let i = reg.serving(proto, peer, port)->0;
            assert(reg.entries.contains(reg.entries[i]));
        }
        m
    } else {
        arbitrary()
    }
}

/// A mapping is deleted by its owner alone: it is then gone, and every other one
/// stays. A port that is missing, unreadable or 0, or a protocol that is, is fault
/// 402; a mapping of another host, or none, is fault 606. Neither changes anything.
pub proof fn mappings_are_deleted_by_their_owners(
    reg: RegistryView,
    body: Seq<char>,
    peer: Ipv4Addr,
    x: Mapping,
)
    requires
        reg.wf(),
    ensures
        ({
            let (after, r) = delete_step(reg, body, peer);
            let port = body_port(body, "NewExternalPort"@);
            let proto = body_proto(body);
            let readable = port is Some && port->0 != 0 && proto is Some;
            let named = readable && x.proto == proto->0 && x.external_port == port->0;
            &&& !readable ==> after == reg && r == StepView::Reply(
                xml_response(fault_text(402, "Invalid Args"@)),
            )
            &&& r is Reply ==> after == reg
            &&& reg.entries.contains(x) && named && x.internal_ip == peer ==> {
                &&& r == StepView::Apply(
                    xml_response(success_text("DeletePortMapping"@, Seq::empty())),
                    xml_response(fault_text(500, "Action failed"@)),
                )
                &&& !after.entries.contains(x)
            }
            &&& reg.entries.contains(x) && named && x.internal_ip != peer ==> r == StepView::Reply(
                xml_response(fault_text(606, "Action not authorized"@)),
            )
            &&& reg.entries.contains(x) && !named ==> after.entries.contains(x)
            &&& readable && (forall|y: Mapping| #[trigger]
                reg.entries.contains(y) ==> !(y.proto == proto->0 && y.external_port == port->0))
                ==> r == StepView::Reply(xml_response(fault_text(606, "Action not authorized"@)))
        }),
{
    let (after, r) = delete_step(reg, body, peer);
    let port = body_port(body, "NewExternalPort"@);
    let proto = body_proto(body);
    if port is Some && port->0 != 0 && proto is Some {
        holding_is_exact(reg, proto->0, port->0, 0);
        match reg.holding(proto->0, port->0) {
            Some(i) => {
                let e = reg.entries[i];
                assert(reg.entries.contains(e));
                removing_takes_one_mapping(reg, i, x);
                if reg.entries.contains(x) && x.proto == proto->0 && x.external_port == port->0 {
                    crate::portmap::laws::external_ports_are_not_shared(reg, x, e);
                }
            },
            None => {
                if reg.entries.contains(x) {
                    let j = reg.entries.index_of(x);
                    assert(!reg.entries[j].holds(proto->0, port->0));
                }
            },
        }
    }
}

/// Which action does what: the name behind the last `#` decides. The external
/// address is told as it is; an action that is not known is fault 401.
pub proof fn actions_are_told_apart(
    ctx: ServerContext,
    reg: RegistryView,
    action: Seq<char>,
    body: Seq<char>,
    peer: Ipv4Addr,
    now: u64,
)
    ensures
        ({
            let r = soap_step(ctx, reg, action, body, peer, now);
            let name = action_name(action);
            &&& name == "GetExternalIPAddress"@ ==> r == (
                reg,
                StepView::Reply(
                    xml_response(
                        success_text(
                            "GetExternalIPAddress"@,
                            seq![("NewExternalIPAddress"@, ctx.wan_ip.spec_text())],
                        ),
                    ),
                ),
            )
            &&& name == "AddPortMapping"@ ==> r == add_step(ctx, reg, body, peer, false, now)
            &&& name == "AddAnyPortMapping"@ ==> r == add_step(ctx, reg, body, peer, true, now)
            &&& name == "DeletePortMapping"@ ==> r == delete_step(reg, body, peer)
            &&& name != "GetExternalIPAddress"@ && name != "AddPortMapping"@ && name
                != "AddAnyPortMapping"@ && name != "DeletePortMapping"@ ==> r == (
                reg,
                StepView::Reply(xml_response(fault_text(401, "Invalid Action"@))),
            )
        }),
{
    reveal_strlit("GetExternalIPAddress");
    reveal_strlit("AddPortMapping");
    reveal_strlit("AddAnyPortMapping");
    reveal_strlit("DeletePortMapping");
    assert("AddPortMapping"@.len() == 14 && "AddAnyPortMapping"@.len() == 17
        && "DeletePortMapping"@.len() == 17 && "GetExternalIPAddress"@.len() == 20);
    assert("AddAnyPortMapping"@[0] != "DeletePortMapping"@[0]);
}

/// An answer names the action, the service and, in elements of their own, each
/// result; a fault names its code and says what went wrong.
pub proof fn answers_name_their_results(
    action: Seq<char>,
    name: Seq<char>,
    value: Seq<char>,
    code: u16,
    words: Seq<char>,
)
    ensures
        args_text(seq![(name, value)]) == "<"@ + name + ">"@ + value + "</"@ + name + ">"@,
        args_text(Seq::empty()).len() == 0,
        success_text(action, seq![(name, value)])
            == "<?xml version=\"1.0\"?>\n<s:Envelope s:encodingStyle=\"http://schemas.xmlsoap.org/soap/encoding/\" xmlns:s=\"http://schemas.xmlsoap.org/soap/envelope/\">\n<s:Body>\n<u:"@
            + action + "Response xmlns:u=\""@ + "urn:schemas-upnp-org:service:WANIPConnection:1"@
            + "\">"@ + ("<"@ + name + ">"@ + value + "</"@ + name + ">"@) + "</u:"@ + action
            + "Response>\n</s:Body>\n</s:Envelope>"@,
        fault_text(code, words)
            == "<?xml version=\"1.0\"?>\n<s:Envelope s:encodingStyle=\"http://schemas.xmlsoap.org/soap/encoding/\" xmlns:s=\"http://schemas.xmlsoap.org/soap/envelope/\">\n<s:Body>\n<s:Fault>\n<faultcode>s:Client</faultcode>\n<faultstring>UPnPError</faultstring>\n<detail>\n<UPnPError xmlns=\"urn:schemas-upnp-org:control-1-0\">\n<errorCode>"@
            + dec(code as nat) + "</errorCode>\n<errorDescription>"@ + words
            + "</errorDescription>\n</UPnPError>\n</detail>\n</s:Fault>\n</s:Body>\n</s:Envelope>"@,
{
    let one = seq![(name, value)];
    assert(one.drop_last() =~= Seq::<(Seq<char>, Seq<char>)>::empty());
    assert(args_text(one.drop_last()).len() == 0);
    assert(args_text(one) =~= "<"@ + name + ">"@ + value + "</"@ + name + ">"@);
}

/// A response with a body announces the number of the body's bytes, and the body
/// follows.
pub proof fn responses_announce_their_length(body: Seq<char>, code: u16, reason: Seq<char>)
    ensures
        xml_response(body) == encode_utf8(
            "HTTP/1.1 200 OK\r\nContent-Type: text/xml; charset=\"utf-8\"\r\nContent-Length: "@
                + dec(encode_utf8(body).len())
                + "\r\nConnection: close\r\nServer: patchbay UPnP/1.0 IGD/1.0\r\n\r\n"@,
        ) + encode_utf8(body),
        status_response(code, reason) == encode_utf8(
            "HTTP/1.1 "@ + dec(code as nat) + " "@ + reason
                + "\r\nContent-Length: 0\r\nConnection: close\r\n\r\n"@,
        ),
{
}

/// A header is found by its name in either case: the first of that name counts.
pub proof fn headers_are_found(
    headers: Seq<(Seq<char>, Seq<char>)>,
    name: Seq<char>,
    k: int,
)
    ensures
        0 <= k < headers.len() && lower(headers[k].0) == lower(name) && (forall|j: int|
            0 <= j < k ==> lower((#[trigger] headers[j]).0) != lower(name)) ==> header_value(
            headers,
            name,
        ) == Some(headers[k].1),
        (forall|j: int|
            0 <= j < headers.len() ==> lower((#[trigger] headers[j]).0) != lower(name))
            ==> header_value(headers, name) is None,
    decreases headers.len(),
{
    if headers.len() > 0 {
        let rest = headers.drop_first();
        headers_are_found(rest, name, k - 1);
        assert forall|j: int| 0 <= j < rest.len() implies #[trigger] rest[j] == headers[j + 1] by {}
        if 0 < k < headers.len() {
            assert(rest[k - 1] == headers[k]);
        }
    }
}

/// A header line is read in two parts, before and behind its first colon, without
/// white space around either; a line without a colon is passed over.
pub proof fn header_lines_are_read(lines: Seq<Seq<char>>, line: Seq<char>)
    ensures
        headers_of(Seq::empty()).len() == 0,
        headers_of(lines.push(line)) == match split_once(line, ":"@) {
            Some((name, value)) => headers_of(lines).push((trim(name), trim(value))),
            None => headers_of(lines),
        },
{
    assert(lines.push(line).drop_last() =~= lines);
}

/// The length of a body is the number that the header `Content-Length` holds, and 0
/// where there is none or it cannot be read.
pub proof fn body_lengths_are_read(headers: Seq<(Seq<char>, Seq<char>)>)
    ensures
        announced_length(headers) == (match header_value(headers, "content-length"@) {
            Some(v) => match parse_number(trim(v), 10, usize::MAX as int) {
                Some(n) => n,
                None => 0,
            },
            None => 0,
        }),
{
}

/// What a search is for: the first line that starts with `st:`, in either case,
/// tells.
pub proof fn search_targets_are_found(lines: Seq<Seq<char>>, k: int)
    ensures
        0 <= k < lines.len() && starts_with(lower(trim(lines[k])), "st:"@) && (forall|j: int|
            0 <= j < k ==> !starts_with(lower(trim(#[trigger] lines[j])), "st:"@))
            ==> lines_target(lines) == Some(trim(trim(lines[k]).skip(3))),
        (forall|j: int|
            0 <= j < lines.len() ==> !starts_with(lower(trim(#[trigger] lines[j])), "st:"@))
            ==> lines_target(lines) is None,
    decreases lines.len(),
{
    if lines.len() > 0 {
        let rest = lines.drop_first();
        search_targets_are_found(rest, k - 1);
        assert forall|j: int| 0 <= j < rest.len() implies #[trigger] rest[j] == lines[j + 1] by {}
        if 0 < k < lines.len() {
            assert(rest[k - 1] == lines[k]);
        }
    }
}

/// Which searches the gateway answers, and that the answer leads to its description.
pub proof fn searches_are_answered(t: Seq<char>, gw: Ipv4Addr, port: u16)
    ensures
        target_matches(t) <==> t == "ssdp:all"@ || t == "upnp:rootdevice"@ || t
            == "urn:schemas-upnp-org:device:InternetGatewayDevice:1"@ || t
            == "urn:schemas-upnp-org:service:WANIPConnection:1"@ || starts_with(t, "uuid:"@),
        ssdp_answer(gw, port)
            == "HTTP/1.1 200 OK\r\nCACHE-CONTROL: max-age=1800\r\nEXT:\r\nLOCATION: http://"@
            + gw.spec_text() + ":"@ + dec(port as nat) + "/rootDesc.xml"@
            + "\r\nSERVER: patchbay UPnP/1.0 IGD/1.0\r\nST: "@
            + "urn:schemas-upnp-org:device:InternetGatewayDevice:1"@ + "\r\nUSN: "@
            + "uuid:d1ce0000-0000-0000-0000-000000000001"@ + "::"@
            + "urn:schemas-upnp-org:device:InternetGatewayDevice:1"@ + "\r\n\r\n"@,
{
}

/// Which path leads where: the two descriptions are read with GET, actions are
/// posted, and everything else is not found. Only actions change anything.
pub proof fn paths_lead_where_they_say(
    ctx: ServerContext,
    reg: RegistryView,
    line: Seq<char>,
    headers: Seq<(Seq<char>, Seq<char>)>,
    body: Seq<u8>,
    peer: Ipv4Addr,
    now: u64,
)
    ensures
        ({
            let r = route_step(ctx, reg, line, headers, body, peer, now);
            let method = crate::text::first_word(line);
            let path = crate::text::first_word(crate::text::after_first_word(line));
            &&& method == "GET"@ && path == "/rootDesc.xml"@ ==> r == (
                reg,
                StepView::Reply(
                    xml_response(crate::portmap::upnp::root_description(ctx.wan_ip)),
                ),
            )
            &&& method == "GET"@ && path == "/WANIPCn.xml"@ && path != "/rootDesc.xml"@ ==> r == (
                reg,
                StepView::Reply(xml_response(crate::portmap::upnp::SCPD@)),
            )
            &&& method == "POST"@ && method != "GET"@ && path == "/ctl/IPConn"@ && valid_utf8(body)
                ==> r == soap_step(
                ctx,
                reg,
                header_action(headers),
                decode_utf8(body),
                peer,
                now,
            )
            &&& !(method == "GET"@ && (path == "/rootDesc.xml"@ || path == "/WANIPCn.xml"@)) && !(
            method == "POST"@ && path == "/ctl/IPConn"@) ==> r == (
                reg,
                StepView::Reply(status_response(404, "Not Found"@)),
            )
        }),
{
}

} // verus!
