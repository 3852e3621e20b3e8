use hickory_proto::op::{Message, MessageType, OpCode, Query, ResponseCode};
use hickory_proto::rr::{Name, RData, RecordType};
use patchbay::addr::{IpAddr, Ipv4Addr, Ipv6Addr};
use patchbay::dns::{
    absolute_name, parse_name, DnsName, DnsQuery, DnsServer, InvalidName, Question,
    CODE_NO_ERROR, CODE_NX_DOMAIN, TYPE_A, TYPE_AAAA, TYPE_TXT,
};

fn v4(d: u8) -> IpAddr {
    IpAddr::V4(Ipv4Addr::new(198, 18, 0, d))
}

fn v6(h: u16) -> IpAddr {
    IpAddr::V6(Ipv6Addr::new(0x2001, 0xdb8, 0, 0, 0, 0, 0, h))
}

fn name(labels: &[&str]) -> DnsName {
    DnsName { labels: labels.iter().map(|l| l.as_bytes().to_vec()).collect(), fqdn: true }
}

fn query(labels: &[&str], qtype: u16) -> DnsQuery {
    DnsQuery {
        id: 77,
        is_query: true,
        op_code: 0,
        recursion_desired: true,
        questions: vec![Question { name: name(labels), qtype }],
    }
}

fn packet(text: &str, rtype: RecordType) -> Vec<u8> {
    let mut m = Message::new();
    m.set_id(4711).set_message_type(MessageType::Query).set_op_code(OpCode::Query);
    m.set_recursion_desired(true);
    m.add_query(Query::query(Name::from_ascii(text).unwrap(), rtype));
    m.to_vec().unwrap()
}

#[test]
fn names_are_made_absolute() {
    assert_eq!(absolute_name("relay.test"), "relay.test.");
    assert_eq!(absolute_name("relay.test."), "relay.test.");
    let n = parse_name("Relay.test").unwrap();
    assert!(n.same(&name(&["Relay", "test"])));
    assert!(n.to_small().same(&name(&["relay", "test"])));
}

#[test]
fn bad_names_are_refused() {
    let mut s = DnsServer::new();
    assert_eq!(s.set_host("a b", v4(1)), Err(InvalidName));
    assert_eq!(s.set_txt("a b", &["x"]), Err(InvalidName));
    assert_eq!(s.remove("a b", TYPE_A), Err(InvalidName));
    assert_eq!(s.resolve("a b"), None);
    assert!(parse_name("a..b").is_err());
}

#[test]
fn hosts_resolve_in_any_case() {
    let mut s = DnsServer::new();
    s.set_host("relay.test", v4(7)).unwrap();
    assert_eq!(s.resolve("RELAY.test."), Some(v4(7)));
    assert_eq!(s.resolve("other.test"), None);
    // The later record replaces the earlier one.
    s.set_host("Relay.test", v4(8)).unwrap();
    assert_eq!(s.resolve("relay.test"), Some(v4(8)));
    assert_eq!(s.resolve_name(&name(&["relay", "test"])), Some(v4(8)));
}

#[test]
fn v4_comes_before_v6() {
    let mut s = DnsServer::new();
    s.set_host("h.test", v6(5)).unwrap();
    assert_eq!(s.resolve("h.test"), Some(v6(5)));
    s.set_host("h.test", v4(5)).unwrap();
    assert_eq!(s.resolve("h.test"), Some(v4(5)));
    s.remove("h.test", TYPE_A).unwrap();
    assert_eq!(s.resolve("h.test"), Some(v6(5)));
}

#[test]
fn answers_depend_on_what_exists() {
    let mut s = DnsServer::new();
    s.set_host("h.test", v4(5)).unwrap();
    let found = s.answer(&query(&["H", "test"], TYPE_A)).unwrap();
    assert_eq!((found.code, found.answers.len()), (CODE_NO_ERROR, 1));
    assert!(found.authoritative && found.recursion_desired && !found.recursion_available);
    assert_eq!(found.id, 77);
    let empty = s.answer(&query(&["h", "test"], TYPE_AAAA)).unwrap();
    assert_eq!((empty.code, empty.answers.len()), (CODE_NO_ERROR, 0));
    let denied = s.answer(&query(&["x", "test"], TYPE_A)).unwrap();
    assert_eq!((denied.code, denied.answers.len()), (CODE_NX_DOMAIN, 0));
    let mut response = query(&["h", "test"], TYPE_A);
    response.is_query = false;
    assert!(s.answer(&response).is_none());
}

#[test]
fn packets_are_answered() {
    let mut s = DnsServer::new();
    s.set_host("relay.test", v4(7)).unwrap();
    s.set_host("relay.test", v6(7)).unwrap();
    s.set_txt("relay.test", &["a", "bc"]).unwrap();

    let reply = Message::from_vec(&s.handle_query(&packet("Relay.test.", RecordType::A)).unwrap());
    let reply = reply.unwrap();
    assert_eq!(reply.id(), 4711);
    assert_eq!(reply.message_type(), MessageType::Response);
    assert_eq!(reply.response_code(), ResponseCode::NoError);
    assert!(reply.authoritative() && reply.recursion_desired() && !reply.recursion_available());
    assert_eq!(reply.queries().len(), 1);
    assert_eq!(reply.queries()[0].query_type(), RecordType::A);
    assert_eq!(reply.answers().len(), 1);
    assert_eq!(reply.answers()[0].ttl(), 1);
    match reply.answers()[0].data() {
        RData::A(a) => assert_eq!(a.0.octets(), [198, 18, 0, 7]),
        other => panic!("unexpected data: {other:?}"),
    }

    let reply = s.handle_query(&packet("relay.test.", RecordType::AAAA)).unwrap();
    match Message::from_vec(&reply).unwrap().answers()[0].data() {
        RData::AAAA(a) => assert_eq!(a.0.segments(), [0x2001, 0xdb8, 0, 0, 0, 0, 0, 7]),
        other => panic!("unexpected data: {other:?}"),
    }

    let reply = s.handle_query(&packet("relay.test.", RecordType::TXT)).unwrap();
    match Message::from_vec(&reply).unwrap().answers()[0].data() {
        RData::TXT(t) => {
            let parts: Vec<Vec<u8>> = t.iter().map(|p| p.to_vec()).collect();
            assert_eq!(parts, vec![b"a".to_vec(), b"bc".to_vec()]);
        }
        other => panic!("unexpected data: {other:?}"),
    }

    let reply = s.handle_query(&packet("nobody.test.", RecordType::A)).unwrap();
    let reply = Message::from_vec(&reply).unwrap();
    assert_eq!(reply.response_code(), ResponseCode::NXDomain);
    assert_eq!(reply.answers().len(), 0);
}

#[test]
fn what_is_no_query_is_not_answered() {
    let s = DnsServer::new();
    assert!(s.handle_query(&[1, 2, 3]).is_none());
    let mut m = Message::new();
    m.set_message_type(MessageType::Response);
    assert!(s.handle_query(&m.to_vec().unwrap()).is_none());
}

#[test]
fn texts_do_not_resolve() {
    let mut s = DnsServer::new();
    s.set_txt("t.test", &["x"]).unwrap();
    assert_eq!(s.resolve("t.test"), None);
    let found = s.answer(&query(&["t", "test"], TYPE_TXT)).unwrap();
    assert_eq!(found.answers.len(), 1);
}
