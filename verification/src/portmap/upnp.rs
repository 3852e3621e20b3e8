//! UPnP IGD:1: discovery over SSDP, the description documents, and the SOAP
//! actions on port mappings.
use vstd::prelude::*;
use vstd::utf8::{decode_utf8, encode_utf8, valid_utf8};

use crate::addr::{parse_ipv4, parse_ipv4_spec, Ipv4Addr};
use crate::bytes::push_range;
use crate::portmap::registry;
use crate::portmap::registry::{
    AllocOutcome, MapProto, MappingKey, PortmapRegistry, RegistryView,
};
use crate::portmap::server::ServerContext;
use crate::text::{
    after_first_word, ascii_lower, ascii_upper, chars_of, dec, find_chars, find_from,
    find_from_is_first, first_word, lower, next_word, occurs_at, parse_number, parse_radix, parse_u16, push_dec, split, split_from,
    split_once, split_once_str, split_str, starts_with, str_eq, str_starts_with, trim,
    trim_end_char, trim_matches, trim_start_char, trim_str, upper, views,
};

verus! {

/// Service type advertised in SSDP and the device description.
pub const SERVICE_TYPE: &'static str = "urn:schemas-upnp-org:service:WANIPConnection:1";

/// Device type advertised by the IGD root device.
pub const DEVICE_TYPE: &'static str = "urn:schemas-upnp-org:device:InternetGatewayDevice:1";

/// Fixed UUID of the IGD root device: each router namespace is isolated.
pub const DEVICE_UUID: &'static str = "uuid:d1ce0000-0000-0000-0000-000000000001";

/// SSDP port.
pub const SSDP_PORT: u16 = 1900;

/// Control URL served by the HTTP server.
pub const CONTROL_URL: &'static str = "/ctl/IPConn";

/// SCPD URL served by the HTTP server.
pub const SCPD_URL: &'static str = "/WANIPCn.xml";

/// Device description URL served by the HTTP server.
pub const ROOT_DESC_URL: &'static str = "/rootDesc.xml";

/// Upper bound on an HTTP request body.
pub const MAX_BODY_SIZE: usize = 65536;

/// `std::str::from_utf8`: the text that the bytes encode, where they are
/// valid UTF-8.
#[verifier::external_body]
fn utf8_text(bytes: &[u8]) -> (r: Option<String>)
    ensures
        r is Some == valid_utf8(bytes@),
        r is Some ==> r->0@ == decode_utf8(bytes@),
{
    std::str::from_utf8(bytes).ok().map(|s| s.to_owned())
}

// ── discovery ────────────────────────────────────────────────────────

/// Whether the text is a discovery request.
pub fn is_m_search(text: &str) -> (r: bool)
    ensures
        r == starts_with(text@, "M-SEARCH * HTTP/1.1"@),
{
    str_starts_with(text, "M-SEARCH * HTTP/1.1")
}

/// The search target that a header line holds: what follows `st:`, in either
/// case, without white space around it.
pub open spec fn line_target(line: Seq<char>) -> Option<Seq<char>> {
    let t = trim(line);
    if starts_with(lower(t), "st:"@) {
        Some(trim(t.skip(3)))
    } else {
        None
    }
}

/// The search target of the first line that holds one.
pub open spec fn lines_target(lines: Seq<Seq<char>>) -> Option<Seq<char>>
    decreases lines.len(),
{
    if lines.len() == 0 {
        None
    } else if line_target(lines[0]) is Some {
        line_target(lines[0])
    } else {
        lines_target(lines.drop_first())
    }
}

/// The search target of a discovery request.
pub open spec fn search_target(text: Seq<char>) -> Option<Seq<char>> {
    lines_target(split(text, "\n"@))
}

fn line_search_target<'a>(line: &'a str) -> (r: Option<&'a str>)
    ensures
        match r {
            Some(t) => line_target(line@) == Some(t@),
            None => line_target(line@) is None,
        },
{
    let t = trim_str(line);
    proof {
        reveal_strlit("st:");
    }
    if str_starts_with(ascii_lower(t).as_str(), "st:") {
        let n = t.unicode_len();
        assert(lower(t@).len() == t@.len());
        let value = t.substring_char(3, n);
        assert(value@ =~= t@.skip(3));
        Some(trim_str(value))
    } else {
        None
    }
}

/// The search target of a discovery request.
pub fn extract_search_target<'a>(text: &'a str) -> (r: Option<&'a str>)
    ensures
        match r {
            Some(t) => search_target(text@) == Some(t@),
            None => search_target(text@) is None,
        },
{
    let v = chars_of(text);
    let nl = chars_of("\n");
    proof {
        reveal_strlit("\n");
    }
    let mut from: usize = 0;
    loop
        invariant
            v@ == text@,
            nl@ == "\n"@,
            nl@.len() == 1,
            from <= v.len(),
            lines_target(split_from(text@, "\n"@, from as int)) == search_target(text@),
        decreases v.len() - from,
    {
        let ghost rest = split_from(text@, "\n"@, from as int);
        match find_chars(&v, &nl, from) {
            Some(k) => {
                let line = text.substring_char(from, k);
                assert(rest[0] == line@);
                assert(rest.drop_first() =~= split_from(text@, "\n"@, k as int + 1));
                let found = line_search_target(line);
                if found.is_some() {
                    return found;
                }
                from = k + 1;
            },
            None => {
                let line = text.substring_char(from, v.len());
                assert(line@ =~= text@.skip(from as int));
                assert(rest[0] == line@);
                assert(rest.drop_first().len() == 0);
                assert(lines_target(rest.drop_first()) is None);
                assert(lines_target(rest) == line_target(line@));
                return line_search_target(line);
            },
        }
    }
}

/// Whether the gateway answers to a search target.
pub open spec fn target_matches(t: Seq<char>) -> bool {
    t == "ssdp:all"@ || t == "upnp:rootdevice"@ || t == DEVICE_TYPE@ || t == SERVICE_TYPE@
        || starts_with(t, "uuid:"@)
}

/// Whether the gateway answers to a search target.
pub fn search_target_matches(target: Option<&str>) -> (r: bool)
    ensures
        r == (target is Some && target_matches(target->0@)),
{
    match target {
        None => false,
        Some(t) => str_eq(t, "ssdp:all") || str_eq(t, "upnp:rootdevice") || str_eq(t, DEVICE_TYPE)
            || str_eq(t, SERVICE_TYPE) || str_starts_with(t, "uuid:"),
    }
}

/// The answer to a discovery request.
pub open spec fn ssdp_answer(gw: Ipv4Addr, http_port: u16) -> Seq<char> {
    "HTTP/1.1 200 OK\r\nCACHE-CONTROL: max-age=1800\r\nEXT:\r\nLOCATION: http://"@
        + gw.spec_text() + ":"@ + dec(http_port as nat) + ROOT_DESC_URL@
        + "\r\nSERVER: patchbay UPnP/1.0 IGD/1.0\r\nST: "@ + DEVICE_TYPE@ + "\r\nUSN: "@
        + DEVICE_UUID@ + "::"@ + DEVICE_TYPE@ + "\r\n\r\n"@
}

/// The answer to a datagram: one that is a discovery request for a target of
/// the gateway is told where the description is; others get none.
pub fn ssdp_response(data: &[u8], gw: Ipv4Addr, http_port: u16) -> (r: Option<String>)
    ensures
        r is Some == (valid_utf8(data@) && starts_with(
            decode_utf8(data@),
            "M-SEARCH * HTTP/1.1"@,
        ) && search_target(decode_utf8(data@)) is Some && target_matches(
            search_target(decode_utf8(data@))->0,
        )),
        r is Some ==> r->0@ == ssdp_answer(gw, http_port),
{
    let text = match utf8_text(data) {
        Some(t) => t,
        None => {
            return None;
        },
    };
    if !is_m_search(text.as_str()) {
        return None;
    }
    if !search_target_matches(extract_search_target(text.as_str())) {
        return None;
    }
    let mut s =
        "HTTP/1.1 200 OK\r\nCACHE-CONTROL: max-age=1800\r\nEXT:\r\nLOCATION: http://".to_owned();
    s.append(gw.text().as_str());
    s.append(":");
    push_dec(&mut s, http_port as u64);
    s.append(ROOT_DESC_URL);
    s.append("\r\nSERVER: patchbay UPnP/1.0 IGD/1.0\r\nST: ");
    s.append(DEVICE_TYPE);
    s.append("\r\nUSN: ");
    s.append(DEVICE_UUID);
    s.append("::");
    s.append(DEVICE_TYPE);
    s.append("\r\n\r\n");
    Some(s)
}

// ── HTTP ─────────────────────────────────────────────────────────────

/// Whether an empty line ends the headers at `i`.
pub open spec fn headers_end_at(buf: Seq<u8>, i: int) -> bool {
    0 <= i && i + 4 <= buf.len() && buf[i] == 13 && buf[i + 1] == 10 && buf[i + 2] == 13 && buf[i
        + 3] == 10
}

/// Where the headers end, if they are complete.
pub fn find_headers_end(buf: &[u8]) -> (r: Option<usize>)
    ensures
        match r {
            Some(k) => headers_end_at(buf@, k as int) && forall|j: int|
                0 <= j < k ==> !headers_end_at(buf@, j),
            None => forall|j: int| !headers_end_at(buf@, j),
        },
{
    let mut i: usize = 0;
    while buf.len() >= 4 && i <= buf.len() - 4
        invariant
            i <= buf.len(),
            forall|j: int| 0 <= j < i ==> !headers_end_at(buf@, j),
        decreases buf.len() - i,
    {
        if buf[i] == 13 && buf[i + 1] == 10 && buf[i + 2] == 13 && buf[i + 3] == 10 {
            return Some(i);
        }
        i += 1;
    }
    None
}

/// The views of a list of headers.
pub open spec fn header_views(v: Seq<(String, String)>) -> Seq<(Seq<char>, Seq<char>)> {
    Seq::new(v.len(), |i: int| (v[i].0@, v[i].1@))
}

/// The headers that the lines hold: name and value around the first colon.
/// Lines without a colon are passed over.
pub open spec fn headers_of(lines: Seq<Seq<char>>) -> Seq<(Seq<char>, Seq<char>)>
    decreases lines.len(),
{
    if lines.len() == 0 {
        Seq::empty()
    } else {
        let before = headers_of(lines.drop_last());
        match split_once(lines.last(), ":"@) {
            Some((k, v)) => before.push((trim(k), trim(v))),
            None => before,
        }
    }
}

/// Parses the request line and the headers; `None` where the bytes are not
/// UTF-8.
pub fn parse_request_headers(bytes: &[u8]) -> (r: Option<(String, Vec<(String, String)>)>)
    ensures
        r is Some == valid_utf8(bytes@),
        r is Some ==> {
            let lines = split(decode_utf8(bytes@), "\r\n"@);
            &&& (r->0).0@ == lines[0]
            &&& header_views((r->0).1@) == headers_of(lines.drop_first())
        },
{
    let text = match utf8_text(bytes) {
        Some(t) => t,
        None => {
            return None;
        },
    };
    proof {
        reveal_strlit("\r\n");
    }
    let lines = split_str(text.as_str(), "\r\n");
    let ghost all = views(lines@);
    let request_line = lines[0].clone();
    assert(request_line@ == all[0]);
    let mut headers: Vec<(String, String)> = Vec::new();
    let mut i: usize = 1;
    assert(all.drop_first().take(0) =~= Seq::<Seq<char>>::empty());
    assert(header_views(headers@) =~= Seq::<(Seq<char>, Seq<char>)>::empty());
    while i < lines.len()
        invariant
            1 <= i <= lines.len(),
            all == views(lines@),
            header_views(headers@) == headers_of(all.drop_first().take(i - 1)),
        decreases lines.len() - i,
    {
        let line = lines[i].as_str();
        let ghost done = header_views(headers@);
        assert(all.drop_first().take(i as int).drop_last() =~= all.drop_first().take(i - 1));
        assert(all.drop_first().take(i as int).last() == line@);
        if let Some((k, v)) = split_once_str(line, ":") {
            headers.push((trim_str(k).to_owned(), trim_str(v).to_owned()));
            assert(header_views(headers@) =~= done.push((trim(k@), trim(v@))));
        }
        i += 1;
    }
    assert(all.drop_first().take(lines.len() - 1) =~= all.drop_first());
    Some((request_line, headers))
}

/// The value of the first header of that name, in either case.
pub open spec fn header_value(
    headers: Seq<(Seq<char>, Seq<char>)>,
    name: Seq<char>,
) -> Option<Seq<char>>
    decreases headers.len(),
{
    if headers.len() == 0 {
        None
    } else if lower(headers[0].0) == lower(name) {
        Some(headers[0].1)
    } else {
        header_value(headers.drop_first(), name)
    }
}

fn find_header<'a>(headers: &'a Vec<(String, String)>, name: &str) -> (r: Option<&'a str>)
    ensures
        match r {
            Some(v) => header_value(header_views(headers@), name@) == Some(v@),
            None => header_value(header_views(headers@), name@) is None,
        },
{
    let want = ascii_lower(name);
    let ghost all = header_views(headers@);
    let mut i: usize = 0;
    assert(all.skip(0) =~= all);
    while i < headers.len()
        invariant
            i <= headers.len(),
            want@ == lower(name@),
            all == header_views(headers@),
            header_value(all, name@) == header_value(all.skip(i as int), name@),
        decreases headers.len() - i,
    {
        assert(all.skip(i as int)[0] == (headers@[i as int].0@, headers@[i as int].1@));
        assert(all.skip(i as int).drop_first() =~= all.skip(i as int + 1));
        if ascii_lower(headers[i].0.as_str()) == want {
            return Some(headers[i].1.as_str());
        }
        i += 1;
    }
    None
}

/// The length of the body that the headers announce; 0 where they announce
/// none that can be read.
pub open spec fn announced_length(headers: Seq<(Seq<char>, Seq<char>)>) -> int {
    match header_value(headers, "content-length"@) {
        Some(v) => match parse_number(trim(v), 10, usize::MAX as int) {
            Some(n) => n,
            None => 0,
        },
        None => 0,
    }
}

/// The length of the body that the headers announce.
pub fn content_length(headers: &Vec<(String, String)>) -> (r: usize)
    ensures
        r as int == announced_length(header_views(headers@)),
{
    match find_header(headers, "content-length") {
        Some(v) => match parse_radix(trim_str(v), 10, usize::MAX as u64) {
            Some(n) => n as usize,
            None => 0,
        },
        None => 0,
    }
}

/// What to do once the headers of a request are there.
#[derive(Debug)]
pub enum BodyPlan {
    /// Read until the buffer holds this many bytes, then route the request.
    ReadUntil(usize),
    /// Send this and close.
    Refuse(Vec<u8>),
}

/// The bytes of a response with a status and no body.
pub open spec fn status_response(code: u16, reason: Seq<char>) -> Seq<u8> {
    encode_utf8(
        "HTTP/1.1 "@ + dec(code as nat) + " "@ + reason
            + "\r\nContent-Length: 0\r\nConnection: close\r\n\r\n"@,
    )
}

/// A response with a status and no body.
pub fn simple_status_response(code: u16, reason: &str) -> (r: Vec<u8>)
    ensures
        r@ == status_response(code, reason@),
{
    let mut s = "HTTP/1.1 ".to_owned();
    push_dec(&mut s, code as u64);
    s.append(" ");
    s.append(reason);
    s.append("\r\nContent-Length: 0\r\nConnection: close\r\n\r\n");
    s.as_str().as_bytes_vec()
}

/// Decides what follows the headers, which end at `header_end`: a body over
/// the limit is refused before it is read.
pub fn plan_body(header_end: usize, headers: &Vec<(String, String)>) -> (r: BodyPlan)
    requires
        header_end <= usize::MAX - 4 - MAX_BODY_SIZE,
    ensures
        announced_length(header_views(headers@)) > MAX_BODY_SIZE ==> r is Refuse
            && r->Refuse_0@ == status_response(413, "Payload Too Large"@),
        announced_length(header_views(headers@)) <= MAX_BODY_SIZE ==> r is ReadUntil
            && r->ReadUntil_0 == header_end + 4 + announced_length(header_views(headers@)),
{
    let n = content_length(headers);
    if n > MAX_BODY_SIZE {
        BodyPlan::Refuse(simple_status_response(413, "Payload Too Large"))
    } else {
        BodyPlan::ReadUntil(header_end + 4 + n)
    }
}

/// The bytes of a response with an XML body.
pub open spec fn xml_response(body: Seq<char>) -> Seq<u8> {
    encode_utf8(
        "HTTP/1.1 200 OK\r\nContent-Type: text/xml; charset=\"utf-8\"\r\nContent-Length: "@ + dec(
            encode_utf8(body).len(),
        ) + "\r\nConnection: close\r\nServer: patchbay UPnP/1.0 IGD/1.0\r\n\r\n"@,
    ) + encode_utf8(body)
}

/// A response with an XML body.
pub fn http_xml_response(body: String) -> (r: Vec<u8>)
    ensures
        r@ == xml_response(body@),
{
    let bytes = body.as_str().as_bytes_vec();
    let mut head =
        "HTTP/1.1 200 OK\r\nContent-Type: text/xml; charset=\"utf-8\"\r\nContent-Length: ".to_owned();
    push_dec(&mut head, bytes.len() as u64);
    head.append("\r\nConnection: close\r\nServer: patchbay UPnP/1.0 IGD/1.0\r\n\r\n");
    let mut resp = head.as_str().as_bytes_vec();
    push_range(&mut resp, bytes.as_slice(), 0, bytes.len());
    assert(bytes@.subrange(0, bytes@.len() as int) =~= bytes@);
    resp
}

// ── documents ────────────────────────────────────────────────────────

/// The device description.
pub open spec fn root_description(wan_ip: Ipv4Addr) -> Seq<char> {
    r#"<?xml version="1.0"?>
<root xmlns="urn:schemas-upnp-org:device-1-0">
  <specVersion><major>1</major><minor>0</minor></specVersion>
  <device>
    <deviceType>"#@ + DEVICE_TYPE@ + r#"</deviceType>
    <friendlyName>patchbay IGD</friendlyName>
    <manufacturer>patchbay</manufacturer>
    <modelName>patchbay-igd</modelName>
    <UDN>"#@ + DEVICE_UUID@ + r#"</UDN>
    <deviceList>
      <device>
        <deviceType>urn:schemas-upnp-org:device:WANDevice:1</deviceType>
        <friendlyName>WAN</friendlyName>
        <UDN>"#@ + DEVICE_UUID@ + r#"</UDN>
        <deviceList>
          <device>
            <deviceType>urn:schemas-upnp-org:device:WANConnectionDevice:1</deviceType>
            <friendlyName>WAN Connection</friendlyName>
            <UDN>"#@ + DEVICE_UUID@ + r#"</UDN>
            <serviceList>
              <service>
                <serviceType>"#@ + SERVICE_TYPE@ + r#"</serviceType>
                <serviceId>urn:upnp-org:serviceId:WANIPConn1</serviceId>
                <controlURL>"#@ + CONTROL_URL@ + r#"</controlURL>
                <eventSubURL>/evt/IPConn</eventSubURL>
                <SCPDURL>"#@ + SCPD_URL@ + r#"</SCPDURL>
              </service>
            </serviceList>
          </device>
        </deviceList>
      </device>
    </deviceList>
    <presentationURL>http://"#@ + wan_ip.spec_text() + r#"/</presentationURL>
  </device>
</root>"#@
}

/// The device description.
pub fn build_root_description(wan_ip: Ipv4Addr) -> (r: String)
    ensures
        r@ == root_description(wan_ip),
{
    let mut s = r#"<?xml version="1.0"?>
<root xmlns="urn:schemas-upnp-org:device-1-0">
  <specVersion><major>1</major><minor>0</minor></specVersion>
  <device>
    <deviceType>"#.to_owned();
    s.append(DEVICE_TYPE);
    s.append(r#"</deviceType>
    <friendlyName>patchbay IGD</friendlyName>
    <manufacturer>patchbay</manufacturer>
    <modelName>patchbay-igd</modelName>
    <UDN>"#);
    s.append(DEVICE_UUID);
    s.append(r#"</UDN>
    <deviceList>
      <device>
        <deviceType>urn:schemas-upnp-org:device:WANDevice:1</deviceType>
        <friendlyName>WAN</friendlyName>
        <UDN>"#);
    s.append(DEVICE_UUID);
    s.append(r#"</UDN>
        <deviceList>
          <device>
            <deviceType>urn:schemas-upnp-org:device:WANConnectionDevice:1</deviceType>
            <friendlyName>WAN Connection</friendlyName>
            <UDN>"#);
    s.append(DEVICE_UUID);
    s.append(r#"</UDN>
            <serviceList>
              <service>
                <serviceType>"#);
    s.append(SERVICE_TYPE);
    s.append(r#"</serviceType>
                <serviceId>urn:upnp-org:serviceId:WANIPConn1</serviceId>
                <controlURL>"#);
    s.append(CONTROL_URL);
    s.append(r#"</controlURL>
                <eventSubURL>/evt/IPConn</eventSubURL>
                <SCPDURL>"#);
    s.append(SCPD_URL);
    s.append(r#"</SCPDURL>
              </service>
            </serviceList>
          </device>
        </deviceList>
      </device>
    </deviceList>
    <presentationURL>http://"#);
    s.append(wan_ip.text().as_str());
    s.append(r#"/</presentationURL>
  </device>
</root>"#);
    s
}

/// The service description: the four actions on port mappings.
pub const SCPD: &'static str = r#"<?xml version="1.0"?>
<scpd xmlns="urn:schemas-upnp-org:service-1-0">
  <specVersion><major>1</major><minor>0</minor></specVersion>
  <actionList>
    <action>
      <name>GetExternalIPAddress</name>
      <argumentList>
        <argument><name>NewExternalIPAddress</name><direction>out</direction><relatedStateVariable>ExternalIPAddress</relatedStateVariable></argument>
      </argumentList>
    </action>
    <action>
      <name>AddPortMapping</name>
      <argumentList>
        <argument><name>NewRemoteHost</name><direction>in</direction><relatedStateVariable>RemoteHost</relatedStateVariable></argument>
        <argument><name>NewExternalPort</name><direction>in</direction><relatedStateVariable>ExternalPort</relatedStateVariable></argument>
        <argument><name>NewProtocol</name><direction>in</direction><relatedStateVariable>PortMappingProtocol</relatedStateVariable></argument>
        <argument><name>NewInternalPort</name><direction>in</direction><relatedStateVariable>InternalPort</relatedStateVariable></argument>
        <argument><name>NewInternalClient</name><direction>in</direction><relatedStateVariable>InternalClient</relatedStateVariable></argument>
        <argument><name>NewEnabled</name><direction>in</direction><relatedStateVariable>PortMappingEnabled</relatedStateVariable></argument>
        <argument><name>NewPortMappingDescription</name><direction>in</direction><relatedStateVariable>PortMappingDescription</relatedStateVariable></argument>
        <argument><name>NewLeaseDuration</name><direction>in</direction><relatedStateVariable>PortMappingLeaseDuration</relatedStateVariable></argument>
      </argumentList>
    </action>
    <action>
      <name>AddAnyPortMapping</name>
      <argumentList>
        <argument><name>NewRemoteHost</name><direction>in</direction><relatedStateVariable>RemoteHost</relatedStateVariable></argument>
        <argument><name>NewExternalPort</name><direction>in</direction><relatedStateVariable>ExternalPort</relatedStateVariable></argument>
        <argument><name>NewProtocol</name><direction>in</direction><relatedStateVariable>PortMappingProtocol</relatedStateVariable></argument>
        <argument><name>NewInternalPort</name><direction>in</direction><relatedStateVariable>InternalPort</relatedStateVariable></argument>
        <argument><name>NewInternalClient</name><direction>in</direction><relatedStateVariable>InternalClient</relatedStateVariable></argument>
        <argument><name>NewEnabled</name><direction>in</direction><relatedStateVariable>PortMappingEnabled</relatedStateVariable></argument>
        <argument><name>NewPortMappingDescription</name><direction>in</direction><relatedStateVariable>PortMappingDescription</relatedStateVariable></argument>
        <argument><name>NewLeaseDuration</name><direction>in</direction><relatedStateVariable>PortMappingLeaseDuration</relatedStateVariable></argument>
        <argument><name>NewReservedPort</name><direction>out</direction><relatedStateVariable>ExternalPort</relatedStateVariable></argument>
      </argumentList>
    </action>
    <action>
      <name>DeletePortMapping</name>
      <argumentList>
        <argument><name>NewRemoteHost</name><direction>in</direction><relatedStateVariable>RemoteHost</relatedStateVariable></argument>
        <argument><name>NewExternalPort</name><direction>in</direction><relatedStateVariable>ExternalPort</relatedStateVariable></argument>
        <argument><name>NewProtocol</name><direction>in</direction><relatedStateVariable>PortMappingProtocol</relatedStateVariable></argument>
      </argumentList>
    </action>
  </actionList>
  <serviceStateTable>
    <stateVariable sendEvents="no"><name>ExternalIPAddress</name><dataType>string</dataType></stateVariable>
    <stateVariable sendEvents="no"><name>RemoteHost</name><dataType>string</dataType></stateVariable>
    <stateVariable sendEvents="no"><name>ExternalPort</name><dataType>ui2</dataType></stateVariable>
    <stateVariable sendEvents="no"><name>InternalPort</name><dataType>ui2</dataType></stateVariable>
    <stateVariable sendEvents="no"><name>InternalClient</name><dataType>string</dataType></stateVariable>
    <stateVariable sendEvents="no"><name>PortMappingProtocol</name><dataType>string</dataType><allowedValueList><allowedValue>TCP</allowedValue><allowedValue>UDP</allowedValue></allowedValueList></stateVariable>
    <stateVariable sendEvents="no"><name>PortMappingEnabled</name><dataType>boolean</dataType></stateVariable>
    <stateVariable sendEvents="no"><name>PortMappingDescription</name><dataType>string</dataType></stateVariable>
    <stateVariable sendEvents="no"><name>PortMappingLeaseDuration</name><dataType>ui4</dataType></stateVariable>
  </serviceStateTable>
</scpd>"#;

/// The service description.
pub fn build_scpd() -> (r: &'static str)
    ensures
        r@ == SCPD@,
{
    SCPD
}

// ── SOAP ─────────────────────────────────────────────────────────────

/// The text inside the first `<tag>` and the next `</tag>`, without white
/// space around it.
pub open spec fn tag_text(body: Seq<char>, tag: Seq<char>) -> Option<Seq<char>> {
    let open = "<"@ + tag + ">"@;
    let close = "</"@ + tag + ">"@;
    match find_from(body, open, 0) {
        Some(k) => match find_from(body, close, k + open.len()) {
            Some(e) => Some(trim(body.subrange(k + open.len(), e))),
            None => None,
        },
        None => None,
    }
}

/// Extracts the text inside a tag of a SOAP body. The first `<tag>` wins;
/// matching is case-sensitive on the name.
pub fn extract_tag<'a>(body: &'a str, tag: &str) -> (r: Option<&'a str>)
    ensures
        match r {
            Some(t) => tag_text(body@, tag@) == Some(t@),
            None => tag_text(body@, tag@) is None,
        },
{
    let v = chars_of(body);
    let mut open = "<".to_owned();
    open.append(tag);
    open.append(">");
    let mut close = "</".to_owned();
    close.append(tag);
    close.append(">");
    let o = chars_of(open.as_str());
    let c = chars_of(close.as_str());
    let n = v.len();
    match find_chars(&v, &o, 0) {
        Some(k) => {
            let start = k + o.len();
            match find_chars(&v, &c, start) {
                Some(end) => Some(trim_str(body.substring_char(start, end))),
                None => None,
            }
        },
        None => None,
    }
}

/// The views of a list of result arguments.
pub open spec fn arg_views(v: Seq<(&str, &str)>) -> Seq<(Seq<char>, Seq<char>)> {
    Seq::new(v.len(), |i: int| (v[i].0@, v[i].1@))
}

/// The result arguments as elements.
pub open spec fn args_text(args: Seq<(Seq<char>, Seq<char>)>) -> Seq<char>
    decreases args.len(),
{
    if args.len() == 0 {
        Seq::empty()
    } else {
        args_text(args.drop_last()) + "<"@ + args.last().0 + ">"@ + args.last().1 + "</"@
            + args.last().0 + ">"@
    }
}

/// The answer to an action that succeeded.
pub open spec fn success_text(action: Seq<char>, args: Seq<(Seq<char>, Seq<char>)>) -> Seq<char> {
    r#"<?xml version="1.0"?>
<s:Envelope s:encodingStyle="http://schemas.xmlsoap.org/soap/encoding/" xmlns:s="http://schemas.xmlsoap.org/soap/envelope/">
<s:Body>
<u:"#@ + action + r#"Response xmlns:u=""#@ + SERVICE_TYPE@ + "\">"@ + args_text(args) + "</u:"@
        + action + r#"Response>
</s:Body>
</s:Envelope>"#@
}

/// The answer to an action that succeeded.
pub fn soap_success(action: &str, out_args: &[(&str, &str)]) -> (r: String)
    ensures
        r@ == success_text(action@, arg_views(out_args@)),
{
    let mut args = String::new();
    let ghost all = arg_views(out_args@);
    let mut i: usize = 0;
    assert(all.take(0) =~= Seq::<(Seq<char>, Seq<char>)>::empty());
    while i < out_args.len()
        invariant
            i <= out_args.len(),
            all == arg_views(out_args@),
            args@ == args_text(all.take(i as int)),
        decreases out_args.len() - i,
    {
        let (k, v) = out_args[i];
        assert(all.take(i as int + 1).drop_last() =~= all.take(i as int));
        assert(all.take(i as int + 1).last() == (k@, v@));
        args.append("<");
        args.append(k);
        args.append(">");
        args.append(v);
        args.append("</");
        args.append(k);
        args.append(">");
        i += 1;
    }
    assert(all.take(out_args.len() as int) =~= all);
    let mut s = r#"<?xml version="1.0"?>
<s:Envelope s:encodingStyle="http://schemas.xmlsoap.org/soap/encoding/" xmlns:s="http://schemas.xmlsoap.org/soap/envelope/">
<s:Body>
<u:"#.to_owned();
    s.append(action);
    s.append(r#"Response xmlns:u=""#);
    s.append(SERVICE_TYPE);
    s.append("\">");
    s.append(args.as_str());
    s.append("</u:");
    s.append(action);
    s.append(r#"Response>
</s:Body>
</s:Envelope>"#);
    s
}

/// The answer to an action that failed.
pub open spec fn fault_text(code: u16, description: Seq<char>) -> Seq<char> {
    r#"<?xml version="1.0"?>
<s:Envelope s:encodingStyle="http://schemas.xmlsoap.org/soap/encoding/" xmlns:s="http://schemas.xmlsoap.org/soap/envelope/">
<s:Body>
<s:Fault>
<faultcode>s:Client</faultcode>
<faultstring>UPnPError</faultstring>
<detail>
<UPnPError xmlns="urn:schemas-upnp-org:control-1-0">
<errorCode>"#@ + dec(code as nat) + r#"</errorCode>
<errorDescription>"#@ + description + r#"</errorDescription>
</UPnPError>
</detail>
</s:Fault>
</s:Body>
</s:Envelope>"#@
}

/// The answer to an action that failed.
pub fn soap_fault(code: u16, description: &str) -> (r: String)
    ensures
        r@ == fault_text(code, description@),
{
    let mut s = r#"<?xml version="1.0"?>
<s:Envelope s:encodingStyle="http://schemas.xmlsoap.org/soap/encoding/" xmlns:s="http://schemas.xmlsoap.org/soap/envelope/">
<s:Body>
<s:Fault>
<faultcode>s:Client</faultcode>
<faultstring>UPnPError</faultstring>
<detail>
<UPnPError xmlns="urn:schemas-upnp-org:control-1-0">
<errorCode>"#.to_owned();
    push_dec(&mut s, code as u64);
    s.append(r#"</errorCode>
<errorDescription>"#);
    s.append(description);
    s.append(r#"</errorDescription>
</UPnPError>
</detail>
</s:Fault>
</s:Body>
</s:Envelope>"#);
    s
}

/// The bytes of the response to an action that failed.
pub open spec fn fault(code: u16, description: Seq<char>) -> Seq<u8> {
    xml_response(fault_text(code, description))
}

fn fault_response(code: u16, description: &str) -> (r: Vec<u8>)
    ensures
        r@ == fault(code, description@),
{
    http_xml_response(soap_fault(code, description))
}

/// What to do about a request.
#[derive(Debug)]
pub enum Step {
    /// Send the response.
    Reply(Vec<u8>),
    /// Apply the rules of the registry, then send the first response where that
    /// worked and the second where it did not.
    Apply(Vec<u8>, Vec<u8>),
}

/// What to do about a request.
pub enum StepView {
    /// Send the response.
    Reply(Seq<u8>),
    /// Apply the rules, then send one of the two.
    Apply(Seq<u8>, Seq<u8>),
}

impl View for Step {
    type V = StepView;

    open spec fn view(&self) -> StepView {
        match self {
            Step::Reply(b) => StepView::Reply(b@),
            Step::Apply(a, b) => StepView::Apply(a@, b@),
        }
    }
}

/// The protocol that a SOAP body names.
pub open spec fn body_proto(body: Seq<char>) -> Option<MapProto> {
    match tag_text(body, "NewProtocol"@) {
        Some(t) => if upper(trim(t)) == "UDP"@ {
            Some(MapProto::Udp)
        } else if upper(trim(t)) == "TCP"@ {
            Some(MapProto::Tcp)
        } else {
            None
        },
        None => None,
    }
}

/// The port that a tag of a SOAP body holds.
pub open spec fn body_port(body: Seq<char>, tag: Seq<char>) -> Option<int> {
    match tag_text(body, tag) {
        Some(t) => parse_number(t, 10, 0xffff),
        None => None,
    }
}

/// The address of the internal client that a SOAP body names.
pub open spec fn body_client(body: Seq<char>) -> Option<Ipv4Addr> {
    match tag_text(body, "NewInternalClient"@) {
        Some(t) => parse_ipv4_spec(t),
        None => None,
    }
}

/// The lease that a SOAP body asks for; 0 where it names none.
pub open spec fn body_lease(body: Seq<char>) -> int {
    match tag_text(body, "NewLeaseDuration"@) {
        Some(t) => match parse_number(t, 10, 0xffff_ffff) {
            Some(n) => n,
            None => 0,
        },
        None => 0,
    }
}

/// Whether a SOAP body has the arguments of a request for a mapping.
pub open spec fn add_args_ok(body: Seq<char>) -> bool {
    body_port(body, "NewExternalPort"@) is Some && body_port(body, "NewInternalPort"@) is Some
        && body_client(body) is Some && body_proto(body) is Some
}

/// What a request for a mapping does.
///
/// The internal client must be the caller and lie on the downstream network. A
/// lease of 0 stands for the longest lifetime.
pub open spec fn add_step(
    ctx: ServerContext,
    reg: RegistryView,
    body: Seq<char>,
    peer: Ipv4Addr,
    pick_any: bool,
    now: u64,
) -> (RegistryView, StepView) {
    if !add_args_ok(body) {
        (reg, StepView::Reply(fault(402, "Invalid Args"@)))
    } else {
        let client = body_client(body)->0;
        let ext = body_port(body, "NewExternalPort"@)->0;
        let port = body_port(body, "NewInternalPort"@)->0;
        let lease = body_lease(body);
        if !ctx.downstream_cidr.holds(client) || client != peer {
            (reg, StepView::Reply(fault(606, "Action not authorized"@)))
        } else if port == 0 {
            (reg, StepView::Reply(fault(402, "Invalid Args"@)))
        } else {
            let lifetime = if lease == 0 {
                ctx.max_lifetime_secs
            } else {
                ctx.grant(lease as u64)
            };
            let wish = if pick_any || ext == 0 {
                None
            } else {
                Some(ext as u16)
            };
            let (after, outcome) = reg.allocate(
                body_proto(body)->0,
                client,
                port as u16,
                wish,
                (now + lifetime * 1000) as u64,
                None,
            );
            let done = |m: u16|
                StepView::Apply(
                    if pick_any {
                        xml_response(
                            success_text(
                                "AddAnyPortMapping"@,
                                seq![("NewReservedPort"@, dec(m as nat))],
                            ),
                        )
                    } else {
                        xml_response(success_text("AddPortMapping"@, Seq::empty()))
                    },
                    fault(500, "Action failed"@),
                );
            match outcome {
                AllocOutcome::Created(m) => (after, done(m.external_port)),
                AllocOutcome::Renewed(m) => (after, done(m.external_port)),
                AllocOutcome::Conflict => (
                    after,
                    StepView::Reply(fault(718, "Conflict in mapping entry"@)),
                ),
                AllocOutcome::NoPortsAvailable => (
                    after,
                    StepView::Reply(fault(728, "No ports available"@)),
                ),
            }
        }
    }
}

/// What a request to delete a mapping does: only its owner may.
pub open spec fn delete_step(reg: RegistryView, body: Seq<char>, peer: Ipv4Addr) -> (
    RegistryView,
    StepView,
) {
    let ext = body_port(body, "NewExternalPort"@);
    let proto = body_proto(body);
    if ext is None || ext->0 == 0 || proto is None {
        (reg, StepView::Reply(fault(402, "Invalid Args"@)))
    } else {
        match reg.holding(proto->0, ext->0) {
            Some(i) => if reg.entries[i].internal_ip == peer {
                (
                    reg.without(i),
                    StepView::Apply(
                        xml_response(success_text("DeletePortMapping"@, Seq::empty())),
                        fault(500, "Action failed"@),
                    ),
                )
            } else {
                (reg, StepView::Reply(fault(606, "Action not authorized"@)))
            },
            None => (reg, StepView::Reply(fault(606, "Action not authorized"@))),
        }
    }
}

/// The name of an action: what follows the last `#`.
pub open spec fn action_name(action: Seq<char>) -> Seq<char> {
    split(action, "#"@).last()
}

/// What a SOAP action does.
pub open spec fn soap_step(
    ctx: ServerContext,
    reg: RegistryView,
    action: Seq<char>,
    body: Seq<char>,
    peer: Ipv4Addr,
    now: u64,
) -> (RegistryView, StepView) {
    let name = action_name(action);
    if name == "GetExternalIPAddress"@ {
        (
            reg,
            StepView::Reply(
                xml_response(
                    success_text(
                        "GetExternalIPAddress"@,
                        seq![("NewExternalIPAddress"@, ctx.wan_ip.spec_text())],
                    ),
                ),
            ),
        )
    } else if name == "AddPortMapping"@ {
        add_step(ctx, reg, body, peer, false, now)
    } else if name == "AddAnyPortMapping"@ {
        add_step(ctx, reg, body, peer, true, now)
    } else if name == "DeletePortMapping"@ {
        delete_step(reg, body, peer)
    } else {
        (reg, StepView::Reply(fault(401, "Invalid Action"@)))
    }
}

fn read_port(body: &str, tag: &str) -> (r: Option<u16>)
    ensures
        match r {
            Some(p) => body_port(body@, tag@) == Some(p as int),
            None => body_port(body@, tag@) is None,
        },
{
    match extract_tag(body, tag) {
        Some(t) => parse_u16(t),
        None => None,
    }
}

fn read_proto(body: &str) -> (r: Option<MapProto>)
    ensures
        r == body_proto(body@),
{
    match extract_tag(body, "NewProtocol") {
        Some(t) => {
            let name = ascii_upper(trim_str(t));
            if str_eq(name.as_str(), "UDP") {
                Some(MapProto::Udp)
            } else if str_eq(name.as_str(), "TCP") {
                Some(MapProto::Tcp)
            } else {
                None
            }
        },
        None => None,
    }
}

fn read_client(body: &str) -> (r: Option<Ipv4Addr>)
    ensures
        r == body_client(body@),
{
    match extract_tag(body, "NewInternalClient") {
        Some(t) => parse_ipv4(t),
        None => None,
    }
}

fn read_lease(body: &str) -> (r: u32)
    ensures
        r as int == body_lease(body@),
{
    match extract_tag(body, "NewLeaseDuration") {
        Some(t) => match parse_radix(t, 10, 0xffff_ffff) {
            Some(n) => n as u32,
            None => 0,
        },
        None => 0,
    }
}

fn handle_add_port_mapping(
    body: &str,
    ctx: &ServerContext,
    registry: &mut PortmapRegistry,
    peer: Ipv4Addr,
    pick_any: bool,
    now: u64,
) -> (r: Step)
    requires
        old(registry).wf(),
        ctx.wf(now),
    ensures
        final(registry).wf(),
        (final(registry)@, r@) == add_step(*ctx, old(registry)@, body@, peer, pick_any, now),
{
    let (external_port, internal_port, internal_client, protocol) = match (
        read_port(body, "NewExternalPort"),
        read_port(body, "NewInternalPort"),
        read_client(body),
        read_proto(body),
    ) {
        (Some(e), Some(i), Some(c), Some(p)) => (e, i, c, p),
        _ => {
            return Step::Reply(fault_response(402, "Invalid Args"));
        },
    };
    let lease_duration: u32 = read_lease(body);
    if !ctx.downstream_cidr.contains(internal_client) || internal_client != peer {
        return Step::Reply(fault_response(606, "Action not authorized"));
    }
    if internal_port == 0 {
        return Step::Reply(fault_response(402, "Invalid Args"));
    }
    let lifetime: u64 = if lease_duration == 0 {
        ctx.max_lifetime_secs
    } else {
        ctx.granted(lease_duration as u64)
    };
    let preferred: Option<u16> = if pick_any || external_port == 0 {
        None
    } else {
        Some(external_port)
    };
    let outcome = registry.allocate(
        protocol,
        internal_client,
        internal_port,
        preferred,
        now,
        lifetime * 1000,
        None,
    );
    let granted: u16 = match outcome {
        AllocOutcome::Created(m) => m.external_port,
        AllocOutcome::Renewed(m) => m.external_port,
        AllocOutcome::Conflict => {
            return Step::Reply(fault_response(718, "Conflict in mapping entry"));
        },
        AllocOutcome::NoPortsAvailable => {
            return Step::Reply(fault_response(728, "No ports available"));
        },
    };
    let ok = if pick_any {
        let port = crate::text::dec_string(granted as u64);
        let args = [("NewReservedPort", port.as_str())];
        assert(arg_views(args@) =~= seq![("NewReservedPort"@, dec(granted as nat))]);
        http_xml_response(soap_success("AddAnyPortMapping", &args))
    } else {
        http_xml_response(soap_done("AddPortMapping"))
    };
    Step::Apply(ok, fault_response(500, "Action failed"))
}

fn soap_done(action: &str) -> (r: String)
    ensures
        r@ == success_text(action@, Seq::empty()),
{
    let none: Vec<(&str, &str)> = Vec::new();
    assert(arg_views(none@) =~= Seq::<(Seq<char>, Seq<char>)>::empty());
    soap_success(action, none.as_slice())
}

fn handle_delete_port_mapping(
    body: &str,
    registry: &mut PortmapRegistry,
    peer: Ipv4Addr,
) -> (r: Step)
    requires
        old(registry).wf(),
    ensures
        final(registry).wf(),
        (final(registry)@, r@) == delete_step(old(registry)@, body@, peer),
{
    let (external_port, proto) = match (read_port(body, "NewExternalPort"), read_proto(body)) {
        (Some(e), Some(p)) => (e, p),
        _ => {
            return Step::Reply(fault_response(402, "Invalid Args"));
        },
    };
    if external_port == 0 {
        return Step::Reply(fault_response(402, "Invalid Args"));
    }
    let key = MappingKey { proto, external_port };
    let authorized = match registry.get(key) {
        Some(m) => m.internal_ip == peer,
        None => false,
    };
    if !authorized {
        return Step::Reply(fault_response(606, "Action not authorized"));
    }
    registry.remove(key);
    Step::Apply(
        http_xml_response(soap_done("DeletePortMapping")),
        fault_response(500, "Action failed"),
    )
}

/// Handles a SOAP action: changes the registry and says what to do next.
pub fn handle_soap(
    action: &str,
    body: &str,
    ctx: &ServerContext,
    registry: &mut PortmapRegistry,
    peer: Ipv4Addr,
    now: u64,
) -> (r: Step)
    requires
        old(registry).wf(),
        ctx.wf(now),
    ensures
        final(registry).wf(),
        (final(registry)@, r@) == soap_step(*ctx, old(registry)@, action@, body@, peer, now),
{
    proof {
        reveal_strlit("#");
    }
    let parts = split_str(action, "#");
    assert(views(parts@).last() == parts@.last()@);
    let name = parts[parts.len() - 1].as_str();
    if str_eq(name, "GetExternalIPAddress") {
        let ip = ctx.wan_ip.text();
        let args = [("NewExternalIPAddress", ip.as_str())];
        assert(arg_views(args@) =~= seq![("NewExternalIPAddress"@, ctx.wan_ip.spec_text())]);
        Step::Reply(http_xml_response(soap_success("GetExternalIPAddress", &args)))
    } else if str_eq(name, "AddPortMapping") {
        handle_add_port_mapping(body, ctx, registry, peer, false, now)
    } else if str_eq(name, "AddAnyPortMapping") {
        handle_add_port_mapping(body, ctx, registry, peer, true, now)
    } else if str_eq(name, "DeletePortMapping") {
        handle_delete_port_mapping(body, registry, peer)
    } else {
        Step::Reply(fault_response(401, "Invalid Action"))
    }
}

/// The SOAP action that the headers name, without quotes around it.
pub open spec fn header_action(headers: Seq<(Seq<char>, Seq<char>)>) -> Seq<char> {
    match header_value(headers, "soapaction"@) {
        Some(v) => trim_end_char(trim_start_char(v, '"'), '"'),
        None => Seq::empty(),
    }
}

/// What an HTTP request does.
pub open spec fn route_step(
    ctx: ServerContext,
    reg: RegistryView,
    request_line: Seq<char>,
    headers: Seq<(Seq<char>, Seq<char>)>,
    body: Seq<u8>,
    peer: Ipv4Addr,
    now: u64,
) -> (RegistryView, StepView) {
    let method = first_word(request_line);
    let target = first_word(after_first_word(request_line));
    if method == "GET"@ && target == ROOT_DESC_URL@ {
        (reg, StepView::Reply(xml_response(root_description(ctx.wan_ip))))
    } else if method == "GET"@ && target == SCPD_URL@ {
        (reg, StepView::Reply(xml_response(SCPD@)))
    } else if method == "POST"@ && target == CONTROL_URL@ {
        soap_step(
            ctx,
            reg,
            header_action(headers),
            if valid_utf8(body) {
                decode_utf8(body)
            } else {
                Seq::empty()
            },
            peer,
            now,
        )
    } else {
        (reg, StepView::Reply(status_response(404, "Not Found"@)))
    }
}

/// Handles an HTTP request: changes the registry and says what to do next.
pub fn route_request(
    request_line: &str,
    headers: &Vec<(String, String)>,
    body: &[u8],
    ctx: &ServerContext,
    registry: &mut PortmapRegistry,
    peer: Ipv4Addr,
    now: u64,
) -> (r: Step)
    requires
        old(registry).wf(),
        ctx.wf(now),
    ensures
        final(registry).wf(),
        (final(registry)@, r@) == route_step(
            *ctx,
            old(registry)@,
            request_line@,
            header_views(headers@),
            body@,
            peer,
            now,
        ),
{
    let (method, rest) = next_word(request_line);
    let (target, _) = next_word(rest.as_str());
    let get = str_eq(method.as_str(), "GET");
    if get && str_eq(target.as_str(), ROOT_DESC_URL) {
        Step::Reply(http_xml_response(build_root_description(ctx.wan_ip)))
    } else if get && str_eq(target.as_str(), SCPD_URL) {
        Step::Reply(http_xml_response(build_scpd().to_owned()))
    } else if str_eq(method.as_str(), "POST") && str_eq(target.as_str(), CONTROL_URL) {
        let action = match find_header(headers, "soapaction") {
            Some(v) => trim_matches(v, '"').to_owned(),
            None => String::new(),
        };
        let text = match utf8_text(body) {
            Some(t) => t,
            None => String::new(),
        };
        handle_soap(action.as_str(), text.as_str(), ctx, registry, peer, now)
    } else {
        Step::Reply(simple_status_response(404, "Not Found"))
    }
}

/// A mapping for another host is never granted: where the internal client is
/// not the caller, the registry stays as it is.
pub proof fn only_own_mappings_are_added(
    ctx: ServerContext,
    reg: RegistryView,
    body: Seq<char>,
    peer: Ipv4Addr,
    pick_any: bool,
    now: u64,
)
    requires
        body_client(body) != Some(peer),
    ensures
        add_step(ctx, reg, body, peer, pick_any, now).0 == reg,
        add_step(ctx, reg, body, peer, pick_any, now).1 is Reply,
{
}

/// Only the owner of a mapping can delete it.
pub proof fn only_own_mappings_are_deleted(reg: RegistryView, body: Seq<char>, peer: Ipv4Addr)
    requires
        delete_step(reg, body, peer).0 != reg,
    ensures
        ({
            let i = reg.holding(body_proto(body)->0, body_port(body, "NewExternalPort"@)->0)->0;
            &&& 0 <= i < reg.entries.len()
            &&& reg.entries[i].internal_ip == peer
            &&& delete_step(reg, body, peer).0 == reg.without(i)
        }),
{
    registry::holding_is_exact(
        reg,
        body_proto(body)->0,
        body_port(body, "NewExternalPort"@)->0,
        0,
    );
}

/// A request to add a mapping changes no mapping of any host but the caller's.
pub proof fn adding_spares_others(
    ctx: ServerContext,
    reg: RegistryView,
    body: Seq<char>,
    peer: Ipv4Addr,
    pick_any: bool,
    now: u64,
)
    ensures
        reg.same_but_for(add_step(ctx, reg, body, peer, pick_any, now).0, peer),
{
    let proto = body_proto(body)->0;
    let ext = body_port(body, "NewExternalPort"@)->0;
    let port = body_port(body, "NewInternalPort"@)->0 as u16;
    let lease = body_lease(body);
    let lifetime = if lease == 0 {
        ctx.max_lifetime_secs
    } else {
        ctx.grant(lease as u64)
    };
    let wish = if pick_any || ext == 0 {
        None
    } else {
        Some(ext as u16)
    };
    let deadline = (now + lifetime * 1000) as u64;
    registry::allocating_spares_others(reg, proto, peer, port, wish, deadline, None);
}

/// A request to delete a mapping changes no mapping of any host but the caller's.
pub proof fn deleting_spares_others(reg: RegistryView, body: Seq<char>, peer: Ipv4Addr)
    ensures
        reg.same_but_for(delete_step(reg, body, peer).0, peer),
{
    let proto = body_proto(body)->0;
    let ext = body_port(body, "NewExternalPort"@)->0;
    registry::holding_is_exact(reg, proto, ext, 0);
    if reg.holding(proto, ext) is Some {
        registry::removing_spares_others(reg, reg.holding(proto, ext)->0);
    }
}

/// An action changes no mapping of any host but the one that asked for it.
pub proof fn clients_touch_only_their_own(
    ctx: ServerContext,
    reg: RegistryView,
    action: Seq<char>,
    body: Seq<char>,
    peer: Ipv4Addr,
    now: u64,
)
    ensures
        reg.same_but_for(soap_step(ctx, reg, action, body, peer, now).0, peer),
{
    adding_spares_others(ctx, reg, body, peer, false, now);
    adding_spares_others(ctx, reg, body, peer, true, now);
    deleting_spares_others(reg, body, peer);
}

// ── reading answers back ─────────────────────────────────────────────

/// Whether a character is an ASCII letter or digit.
pub open spec fn is_name_char(c: char) -> bool {
    ('0' <= c && c <= '9') || ('A' <= c && c <= 'Z') || ('a' <= c && c <= 'z')
}

/// Whether a text holds ASCII letters and digits only.
pub open spec fn is_name(s: Seq<char>) -> bool {
    forall|i: int| 0 <= i < s.len() ==> is_name_char(#[trigger] s[i])
}

/// Among the first `n` characters each `<` begins a prefixed tag or a
/// declaration, which stands in the text as far as shows that.
spec fn tags_prefixed(s: Seq<char>, n: int) -> bool
    decreases n,
{
    n <= 0 || (tags_prefixed(s, n - 1) && (s[n - 1] == '<' ==> n + 1 < s.len() && (s[n] == '?'
        || s[n + 1] == ':')))
}

proof fn prefixed_everywhere(s: Seq<char>, n: int, i: int)
    requires
        tags_prefixed(s, n),
        0 <= i < n,
        s[i] == '<',
    ensures
        i + 2 < s.len(),
        s[i + 1] == '?' || s[i + 2] == ':',
    decreases n,
{
    if i < n - 1 {
        prefixed_everywhere(s, n - 1, i);
    }
}

/// What stands before the results in an answer.
spec fn answer_head(action: Seq<char>) -> Seq<char> {
    r#"<?xml version="1.0"?>
<s:Envelope s:encodingStyle="http://schemas.xmlsoap.org/soap/encoding/" xmlns:s="http://schemas.xmlsoap.org/soap/envelope/">
<s:Body>
<u:"#@ + action + r#"Response xmlns:u=""#@ + SERVICE_TYPE@ + "\">"@
}

proof fn head_tags_are_prefixed(action: Seq<char>, i: int)
    requires
        is_name(action),
        0 <= i < answer_head(action).len(),
        answer_head(action)[i] == '<',
    ensures
        i + 2 < answer_head(action).len(),
        answer_head(action)[i + 1] == '?' || answer_head(action)[i + 2] == ':',
{
    let start = r#"<?xml version="1.0"?>
<s:Envelope s:encodingStyle="http://schemas.xmlsoap.org/soap/encoding/" xmlns:s="http://schemas.xmlsoap.org/soap/envelope/">
<s:Body>
<u:"#@;
    let mid = r#"Response xmlns:u=""#@;
    let kind = SERVICE_TYPE@;
    let end = "\">"@;
    assert(tags_prefixed(start, start.len() as int)) by {
        reveal_strlit(
            r#"<?xml version="1.0"?>
<s:Envelope s:encodingStyle="http://schemas.xmlsoap.org/soap/encoding/" xmlns:s="http://schemas.xmlsoap.org/soap/envelope/">
<s:Body>
<u:"#,
        );
        reveal_with_fuel(tags_prefixed, 41);
        assert(tags_prefixed(start, 40));
        assert(tags_prefixed(start, 80));
        assert(tags_prefixed(start, 120));
        assert(tags_prefixed(start, 159));
    }
    assert(tags_prefixed(mid, mid.len() as int)) by {
        reveal_strlit(r#"Response xmlns:u=""#);
        reveal_with_fuel(tags_prefixed, 20);
    }
    assert(tags_prefixed(kind, kind.len() as int)) by {
        reveal_strlit("urn:schemas-upnp-org:service:WANIPConnection:1");
        reveal_with_fuel(tags_prefixed, 60);
    }
    assert(tags_prefixed(end, end.len() as int)) by {
        reveal_strlit("\">");
        reveal_with_fuel(tags_prefixed, 4);
    }
    let a = start.len() as int;
    let b = a + action.len();
    let c = b + mid.len();
    let d = c + kind.len();
    if i < a {
        prefixed_everywhere(start, a, i);
    } else if i < b {
        assert(is_name_char(action[i - a]));
    } else if i < c {
        prefixed_everywhere(mid, mid.len() as int, i - b);
    } else if i < d {
        prefixed_everywhere(kind, kind.len() as int, i - c);
    } else {
        prefixed_everywhere(end, end.len() as int, i - d);
    }
}

/// What an answer says of a result is read back from it, without white space at
/// either end, as long as it does not hold the end of its own tag.
#[verifier::rlimit(60)]
#[verifier::spinoff_prover]
pub proof fn answers_are_read_back(action: Seq<char>, tag: Seq<char>, value: Seq<char>)
    requires
        is_name(action),
        is_name(tag),
        tag.len() > 0,
        forall|i: int| !occurs_at(value, "</"@ + tag + ">"@, i),
    ensures
        tag_text(success_text(action, seq![(tag, value)]), tag) == Some(trim(value)),
{
    let args = seq![(tag, value)];
    let body = success_text(action, args);
    let head = answer_head(action);
    let open = "<"@ + tag + ">"@;
    let close = "</"@ + tag + ">"@;
    let tail = "</u:"@ + action + r#"Response>
</s:Body>
</s:Envelope>"#@;
    reveal_strlit("<");
    reveal_strlit("</");
    reveal_strlit(">");
    assert(args_text(args) =~= open + value + close) by {
        assert(args.drop_last() =~= Seq::empty());
        assert(args_text(args.drop_last()) =~= Seq::empty());
    }
    assert(body =~= head + open + value + close + tail);
    let n = head.len() as int;
    let m = tag.len() as int;
    let start = n + open.len();
    assert(occurs_at(body, open, n)) by {
        assert(body.subrange(n, n + open.len()) =~= open);
    }
    assert forall|i: int| 0 <= i < n implies !occurs_at(body, open, i) by {
        if occurs_at(body, open, i) {
            let there = body.subrange(i, i + open.len());
            assert(there[0] == open[0] && there[1] == open[1] && there[2] == open[2]);
            assert(body[i] == head[i]);
            head_tags_are_prefixed(action, i);
            assert(is_name_char(tag[0]));
            if m > 1 {
                assert(is_name_char(tag[1]));
            }
        }
    }
    find_from_is_first(body, open, 0);
    assert(find_from(body, open, 0) == Some(n));
    let end = start + value.len();
    assert(occurs_at(body, close, end)) by {
        assert(body.subrange(end, end + close.len()) =~= close);
    }
    assert forall|i: int| start <= i < end implies !occurs_at(body, close, i) by {
        if occurs_at(body, close, i) {
            let there = body.subrange(i, i + close.len());
            if i + close.len() <= end {
                assert(value.subrange(i - start, i - start + close.len()) =~= there);
                assert(occurs_at(value, close, i - start));
            } else {
                let k = end - i;
                assert(there[k] == close[k]);
                assert(body[end] == '<');
                if 2 <= k < 2 + m {
                    assert(is_name_char(tag[k - 2]));
                }
            }
        }
    }
    find_from_is_first(body, close, start);
    assert(find_from(body, close, start) == Some(end));
    assert(body.subrange(start, end) =~= value);
}

} // verus!
