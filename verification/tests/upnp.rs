use patchbay::addr::{Ipv4Addr, Ipv4Net};
use patchbay::portmap::registry::{MapProto, MappingKey, PortmapRegistry};
use patchbay::portmap::server::ServerContext;
use patchbay::portmap::upnp::{
    build_root_description, build_scpd, content_length, extract_search_target, extract_tag,
    find_headers_end, handle_soap, is_m_search, parse_request_headers, plan_body, route_request,
    search_target_matches, simple_status_response, soap_fault, soap_success, ssdp_response,
    BodyPlan, Step, CONTROL_URL, ROOT_DESC_URL, SCPD_URL, SERVICE_TYPE,
};

const SEARCH: &str = "M-SEARCH * HTTP/1.1\r\nHost: 239.255.255.250:1900\r\nMan: \"ssdp:discover\"\r\nST: urn:schemas-upnp-org:device:InternetGatewayDevice:1\r\nMX: 3\r\n\r\n";

fn context() -> ServerContext {
    let lan = Ipv4Net::new(Ipv4Addr::new(10, 0, 0, 0), 24).unwrap();
    ServerContext::new(Ipv4Addr::new(198, 51, 100, 1), lan)
}

#[test]
fn m_search_discovery_is_recognized() {
    let body = "M-SEARCH * HTTP/1.1\r\nHost: 239.255.255.250:1900\r\nMan: \"ssdp:discover\"\r\nST: urn:schemas-upnp-org:device:InternetGatewayDevice:1\r\nMX: 3\r\n\r\n";
    assert!(is_m_search(body));
    let st = extract_search_target(body);
    assert!(search_target_matches(st));
}

#[test]
fn rootdesc_mentions_wan_ip_connection_service() {
    let xml = build_root_description(Ipv4Addr::new(198, 51, 100, 1));
    assert!(xml.contains(SERVICE_TYPE));
    assert!(xml.contains(CONTROL_URL));
    assert!(xml.contains(SCPD_URL));
}

#[test]
fn scpd_lists_required_actions() {
    let scpd = build_scpd();
    for action in [
        "GetExternalIPAddress",
        "AddPortMapping",
        "AddAnyPortMapping",
        "DeletePortMapping",
    ] {
        assert!(scpd.contains(action), "scpd missing {action}");
    }
}

#[test]
fn extract_tag_handles_soap_like_body() {
    let body = r#"<s:Body><u:AddPortMapping>
  <NewRemoteHost></NewRemoteHost>
  <NewExternalPort>8080</NewExternalPort>
  <NewProtocol>UDP</NewProtocol>
  <NewInternalPort>80</NewInternalPort>
  <NewInternalClient>10.0.0.5</NewInternalClient>
</u:AddPortMapping></s:Body>"#;
    assert_eq!(extract_tag(body, "NewExternalPort"), Some("8080"));
    assert_eq!(extract_tag(body, "NewProtocol"), Some("UDP"));
    assert_eq!(extract_tag(body, "NewInternalClient"), Some("10.0.0.5"));
}

#[test]
fn soap_success_includes_out_args() {
    let body = soap_success("GetExternalIPAddress", &[("NewExternalIPAddress", "1.2.3.4")]);
    assert!(body.contains("<NewExternalIPAddress>1.2.3.4</NewExternalIPAddress>"));
    assert!(body.contains(SERVICE_TYPE));
}

#[test]
fn answers_are_read_back() {
    let body = soap_success("GetExternalIPAddress", &[("NewExternalIPAddress", " 198.51.100.1\n")]);
    assert_eq!(extract_tag(&body, "NewExternalIPAddress"), Some("198.51.100.1"));
    let body = soap_success("AddAnyPortMapping", &[("s", "a<b></u>")]);
    assert_eq!(extract_tag(&body, "s"), Some("a<b></u>"));
    assert_eq!(extract_tag(&body, "t"), None);
}

#[test]
fn searches_are_answered_with_the_location() {
    let gw = Ipv4Addr::new(10, 0, 0, 1);
    let reply = ssdp_response(SEARCH.as_bytes(), gw, 5000).unwrap();
    assert!(reply.contains("http://10.0.0.1:5000"));
    assert!(ssdp_response(b"NOTIFY * HTTP/1.1\r\n\r\n", gw, 5000).is_none());
    // Bytes that are no text are no search.
    assert!(ssdp_response(&[0xff, 0xfe, b'M'], gw, 5000).is_none());
}

#[test]
fn requests_are_split_into_headers() {
    let raw = b"POST /ctl HTTP/1.1\r\nContent-Length: 12\r\nHost: a:b\r\n\r\nrest";
    let end = find_headers_end(raw).unwrap();
    assert_eq!(&raw[end + 4..], b"rest");
    let (line, headers) = parse_request_headers(&raw[..end]).unwrap();
    assert_eq!(line, "POST /ctl HTTP/1.1");
    assert_eq!(headers.len(), 2);
    assert_eq!(content_length(&headers), 12);
    assert!(matches!(plan_body(end, &headers), BodyPlan::ReadUntil(_)));
    assert!(parse_request_headers(&[0xff, 0xfe]).is_none());
    assert!(find_headers_end(b"GET / HTTP/1.1\r\n").is_none());
}

#[test]
fn status_responses_have_no_body() {
    let r = simple_status_response(404, "Not Found");
    let text = String::from_utf8(r).unwrap();
    assert!(text.starts_with("HTTP/1.1 404 Not Found\r\n"));
}

fn add_body(client: &str) -> String {
    let mut s = String::from("<NewExternalPort>8080</NewExternalPort><NewProtocol>UDP</NewProtocol>");
    s.push_str("<NewInternalPort>80</NewInternalPort><NewInternalClient>");
    s.push_str(client);
    s.push_str("</NewInternalClient><NewLeaseDuration>60</NewLeaseDuration>");
    s
}

#[test]
fn clients_add_and_delete_their_own_mappings() {
    let ctx = context();
    let mut reg = PortmapRegistry::new();
    let peer = Ipv4Addr::new(10, 0, 0, 5);
    let key = MappingKey { proto: MapProto::Udp, external_port: 8080 };
    match handle_soap("AddPortMapping", &add_body("10.0.0.5"), &ctx, &mut reg, peer, 0) {
        Step::Apply(ok, _) => assert!(String::from_utf8(ok).unwrap().contains("200 OK")),
        other => panic!("unexpected step: {other:?}"),
    }
    assert_eq!(reg.get(key).unwrap().internal_port, 80);
    let other = Ipv4Addr::new(10, 0, 0, 6);
    let body = "<NewExternalPort>8080</NewExternalPort><NewProtocol>UDP</NewProtocol>";
    match handle_soap("DeletePortMapping", body, &ctx, &mut reg, other, 0) {
        Step::Reply(_) => (),
        step => panic!("unexpected step: {step:?}"),
    }
    assert_eq!(reg.len(), 1);
    match handle_soap("DeletePortMapping", body, &ctx, &mut reg, peer, 0) {
        Step::Apply(..) => (),
        step => panic!("unexpected step: {step:?}"),
    }
    assert_eq!(reg.len(), 0);
}

#[test]
fn mappings_for_others_are_refused() {
    let ctx = context();
    let mut reg = PortmapRegistry::new();
    let peer = Ipv4Addr::new(10, 0, 0, 5);
    match handle_soap("AddPortMapping", &add_body("10.0.0.6"), &ctx, &mut reg, peer, 0) {
        Step::Reply(r) => assert!(String::from_utf8(r).unwrap().contains("errorCode")),
        other => panic!("unexpected step: {other:?}"),
    }
    assert_eq!(reg.len(), 0);
}

#[test]
fn faults_name_their_code() {
    let fault = soap_fault(718, "ConflictInMappingEntry");
    assert!(fault.contains("<errorCode>718</errorCode>"));
    assert!(fault.contains("ConflictInMappingEntry"));
}

#[test]
fn paths_are_routed() {
    let ctx = context();
    let mut reg = PortmapRegistry::new();
    let peer = Ipv4Addr::new(10, 0, 0, 5);
    let none: Vec<(String, String)> = Vec::new();
    let mut line = String::from("GET ");
    line.push_str(ROOT_DESC_URL);
    line.push_str(" HTTP/1.1");
    match route_request(&line, &none, &[], &ctx, &mut reg, peer, 0) {
        Step::Reply(r) => assert!(String::from_utf8(r).unwrap().contains(SERVICE_TYPE)),
        other => panic!("unexpected step: {other:?}"),
    }
    match route_request("GET /nowhere HTTP/1.1", &none, &[], &ctx, &mut reg, peer, 0) {
        Step::Reply(r) => assert!(String::from_utf8(r).unwrap().contains("404")),
        other => panic!("unexpected step: {other:?}"),
    }
}
